//! Parses rendered exposition text back, the way a scraper does, and checks
//! that the (family, labels, value) tuples put into the registry come out
//! unchanged.

use metrics_engine::model::MetricKind;
use metrics_engine::registry::{FamilyDef, Registry};

/// One recovered sample: metric name, label pairs, value text.
type Sample = (String, Vec<(String, String)>, String);

fn unescape(s: &str) -> String {
    let mut out = String::new();
    let mut chars = s.chars();
    while let Some(c) = chars.next() {
        if c == '\\' {
            match chars.next() {
                Some('n') => out.push('\n'),
                Some(other) => out.push(other),
                None => {}
            }
        } else {
            out.push(c);
        }
    }
    out
}

/// Parses one exposition body: comment lines are skipped, every other line is
/// `name{k="v",...} value` or `name value`.
fn parse_exposition(text: &str) -> Vec<Sample> {
    let mut samples = Vec::new();
    for line in text.lines() {
        if line.is_empty() || line.starts_with('#') {
            continue;
        }
        let (name_and_labels, value) = line.rsplit_once(' ').expect("a value field");
        let (name, labels) = match name_and_labels.split_once('{') {
            None => (name_and_labels.to_string(), Vec::new()),
            Some((name, rest)) => {
                let body = rest.strip_suffix('}').expect("a closing brace");
                let mut pairs = Vec::new();
                let mut remaining = body;
                while !remaining.is_empty() {
                    let (key, rest) = remaining.split_once("=\"").expect("a pair");
                    // Find the closing quote, honouring escapes.
                    let mut end = None;
                    let mut escaped = false;
                    for (idx, c) in rest.char_indices() {
                        if escaped {
                            escaped = false;
                        } else if c == '\\' {
                            escaped = true;
                        } else if c == '"' {
                            end = Some(idx);
                            break;
                        }
                    }
                    let end = end.expect("a closing quote");
                    pairs.push((key.to_string(), unescape(&rest[..end])));
                    remaining = rest[end + 1..].strip_prefix(',').unwrap_or(&rest[end + 1..]);
                }
                (name.to_string(), pairs)
            }
        };
        samples.push((name, labels, value.to_string()));
    }
    samples
}

fn find<'a>(samples: &'a [Sample], name: &str, labels: &[(&str, &str)]) -> &'a str {
    let want: Vec<(String, String)> = labels
        .iter()
        .map(|(k, v)| (k.to_string(), v.to_string()))
        .collect();
    &samples
        .iter()
        .find(|(n, l, _)| n == name && *l == want)
        .expect("sample present")
        .2
}

#[test]
fn parsing_the_rendered_text_recovers_every_tuple() {
    let mut reg = Registry::new();
    reg.register(FamilyDef {
        name: "hits".to_string(),
        help: "Hits".to_string(),
        kind: MetricKind::Counter,
        label_names: vec!["path".to_string()],
    })
    .unwrap();
    reg.register(FamilyDef {
        name: "temperature".to_string(),
        help: "Degrees".to_string(),
        kind: MetricKind::Gauge,
        label_names: Vec::new(),
    })
    .unwrap();
    reg.register(FamilyDef {
        name: "latency".to_string(),
        help: "Latency".to_string(),
        kind: MetricKind::Histogram,
        label_names: vec!["env".to_string()],
    })
    .unwrap();

    let a = vec!["/a".to_string()];
    let b = vec!["/b".to_string()];
    reg.counter_inc("hits", &a).unwrap();
    reg.counter_inc("hits", &a).unwrap();
    reg.counter_inc("hits", &b).unwrap();
    reg.gauge_set("temperature", &Vec::new(), -4).unwrap();
    let prod = vec!["production".to_string()];
    reg.histogram_observe("latency", &prod, 500).unwrap();
    reg.histogram_observe("latency", &prod, 2000).unwrap();

    let samples = parse_exposition(&reg.render());
    assert_eq!(find(&samples, "hits", &[("path", "/a")]), "2");
    assert_eq!(find(&samples, "hits", &[("path", "/b")]), "1");
    assert_eq!(find(&samples, "temperature", &[]), "-4");
    assert_eq!(
        find(&samples, "latency_bucket", &[("env", "production"), ("le", "1.0")]),
        "1"
    );
    assert_eq!(
        find(&samples, "latency_bucket", &[("env", "production"), ("le", "+Inf")]),
        "2"
    );
    assert_eq!(find(&samples, "latency_sum", &[("env", "production")]), "2.5");
    assert_eq!(find(&samples, "latency_count", &[("env", "production")]), "2");
}

#[test]
fn awkward_label_values_survive_the_round_trip() {
    let mut reg = Registry::new();
    reg.register(FamilyDef {
        name: "hits".to_string(),
        help: "Hits".to_string(),
        kind: MetricKind::Counter,
        label_names: vec!["path".to_string()],
    })
    .unwrap();
    let odd = "a\"b\\c\nd,e={}";
    reg.counter_inc("hits", &vec![odd.to_string()]).unwrap();
    let samples = parse_exposition(&reg.render());
    assert_eq!(find(&samples, "hits", &[("path", odd)]), "1");
}
