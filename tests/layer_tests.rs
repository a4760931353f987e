use hc3_backend::env_store::EnvStore;
use hc3_backend::layers::{
    apply_entries, load_layer, load_layers, merge_layers, strip_bom, LayerInput, LayerStatus,
    ParsedLayer,
};

fn contents(text: &str) -> LayerInput {
    LayerInput::Contents(text.as_bytes().to_vec())
}

#[test]
fn preset_variable_not_overwritten() {
    let mut env = EnvStore::new();
    env.insert_if_absent("HC3_HOST".to_string(), "preset".to_string());
    let status = load_layer(&mut env, &contents("HC3_HOST=from_file\nHC3_USER=u\n"));
    assert_eq!(status, LayerStatus::Loaded);
    assert_eq!(env.get("HC3_HOST"), Some("preset".to_string()));
    assert_eq!(env.get("HC3_USER"), Some("u".to_string()));
}

#[test]
fn resource_layer_wins_over_home_layer() {
    let mut env = EnvStore::new();
    let sources = vec![contents("HC3_HOST=a\n"), contents("HC3_HOST=b\nHC3_USER=c\n")];
    let report = load_layers(&mut env, &sources);
    assert_eq!(report, vec![LayerStatus::Loaded, LayerStatus::Loaded]);
    assert_eq!(env.get("HC3_HOST"), Some("a".to_string()));
    assert_eq!(env.get("HC3_USER"), Some("c".to_string()));
}

#[test]
fn missing_and_unreadable_layers() {
    let mut env = EnvStore::new();
    let sources = vec![
        LayerInput::Missing,
        LayerInput::Unreadable("permission denied".to_string()),
        contents("HC3_PASSWORD=pw\n"),
    ];
    let report = load_layers(&mut env, &sources);
    assert_eq!(
        report,
        vec![
            LayerStatus::Skipped,
            LayerStatus::Failed("permission denied".to_string()),
            LayerStatus::Loaded,
        ]
    );
    assert_eq!(env.get("HC3_PASSWORD"), Some("pw".to_string()));
}

#[test]
fn parse_error_keeps_earlier_pairs() {
    let mut env = EnvStore::new();
    let status = load_layer(&mut env, &contents("A=1\n1BAD=x\nB=2\n"));
    assert!(matches!(status, LayerStatus::Failed(_)));
    assert_eq!(env.get("A"), Some("1".to_string()));
    assert_eq!(env.get("B"), None);
}

#[test]
fn first_occurrence_in_file_wins() {
    let mut env = EnvStore::new();
    load_layer(&mut env, &contents("K=1\nK=2\n"));
    assert_eq!(env.get("K"), Some("1".to_string()));
}

#[test]
fn quoted_values_and_comments() {
    let mut env = EnvStore::new();
    let status = load_layer(&mut env, &contents("# comment\nHC3_HOST=\"10.0.0.5\"\nexport HC3_USER='admin'\n"));
    assert_eq!(status, LayerStatus::Loaded);
    assert_eq!(env.get("HC3_HOST"), Some("10.0.0.5".to_string()));
    assert_eq!(env.get("HC3_USER"), Some("admin".to_string()));
}

#[test]
fn byte_order_mark_is_ignored() {
    let mut env = EnvStore::new();
    let mut bytes = vec![0xEF, 0xBB, 0xBF];
    bytes.extend_from_slice(b"HC3_USER=u\n");
    let status = load_layer(&mut env, &LayerInput::Contents(bytes));
    assert_eq!(status, LayerStatus::Loaded);
    assert_eq!(env.get("HC3_USER"), Some("u".to_string()));
}

#[test]
fn strip_bom_only_strips_mark() {
    assert_eq!(strip_bom(&[0xEF, 0xBB, 0xBF, b'A']), &[b'A']);
    assert_eq!(strip_bom(b"AB"), b"AB");
    assert_eq!(strip_bom(&[]), &[] as &[u8]);
}

#[test]
fn apply_entries_stops_at_error() {
    let mut env = EnvStore::new();
    env.insert_if_absent("X".to_string(), "old".to_string());
    let items = vec![
        Ok(("X".to_string(), "new".to_string())),
        Ok(("Y".to_string(), "1".to_string())),
        Err(dotenvy::Error::LineParse("bad".to_string(), 0)),
        Ok(("Z".to_string(), "2".to_string())),
    ];
    let status = apply_entries(&mut env, &items);
    assert!(matches!(status, LayerStatus::Failed(_)));
    assert_eq!(env.get("X"), Some("old".to_string()));
    assert_eq!(env.get("Y"), Some("1".to_string()));
    assert_eq!(env.get("Z"), None);
}

#[test]
fn apply_entries_all_ok() {
    let mut env = EnvStore::new();
    let items: Vec<Result<(String, String), dotenvy::Error>> =
        vec![Ok(("P".to_string(), "1".to_string()))];
    assert_eq!(apply_entries(&mut env, &items), LayerStatus::Loaded);
    assert_eq!(env.get("P"), Some("1".to_string()));
}

fn pair(k: &str, v: &str) -> Result<(String, String), dotenvy::Error> {
    Ok((k.to_string(), v.to_string()))
}

#[test]
fn merge_layers_in_order() {
    let mut env = EnvStore::new();
    env.insert_if_absent("HC3_USER".to_string(), "preset".to_string());
    let layers = vec![
        ParsedLayer::Parsed(vec![pair("HC3_HOST", "a"), pair("HC3_USER", "ra")]),
        ParsedLayer::Missing,
        ParsedLayer::Parsed(vec![
            pair("HC3_HOST", "b"),
            pair("HC3_PASSWORD", "hp"),
            Err(dotenvy::Error::LineParse("oops".to_string(), 1)),
            pair("HC3_PROTOCOL", "https"),
        ]),
        ParsedLayer::Unreadable("denied".to_string()),
    ];
    let report = merge_layers(&mut env, &layers);
    assert_eq!(report.len(), 4);
    assert_eq!(report[0], LayerStatus::Loaded);
    assert_eq!(report[1], LayerStatus::Skipped);
    assert!(matches!(report[2], LayerStatus::Failed(_)));
    assert_eq!(report[3], LayerStatus::Failed("denied".to_string()));
    assert_eq!(env.get("HC3_HOST"), Some("a".to_string()));
    assert_eq!(env.get("HC3_USER"), Some("preset".to_string()));
    assert_eq!(env.get("HC3_PASSWORD"), Some("hp".to_string()));
    assert_eq!(env.get("HC3_PROTOCOL"), None);
}

#[test]
fn layers_without_files_change_nothing() {
    let mut env = EnvStore::new();
    env.insert_if_absent("K".to_string(), "v".to_string());
    let sources = vec![LayerInput::Missing, LayerInput::Unreadable("gone".to_string())];
    let report = load_layers(&mut env, &sources);
    assert_eq!(report, vec![LayerStatus::Skipped, LayerStatus::Failed("gone".to_string())]);
    assert_eq!(env.pairs(), vec![("K".to_string(), "v".to_string())]);
}

#[test]
fn home_layer_fills_what_resource_layer_lacks() {
    let mut env = EnvStore::new();
    env.insert_if_absent("HC3_PASSWORD".to_string(), "env".to_string());
    let sources = vec![
        contents("HC3_HOST=res\nHC3_PASSWORD=res\n"),
        contents("HC3_HOST=home\nHC3_USER=home\nHC3_PASSWORD=home\n"),
    ];
    load_layers(&mut env, &sources);
    assert_eq!(env.get("HC3_HOST"), Some("res".to_string()));
    assert_eq!(env.get("HC3_USER"), Some("home".to_string()));
    assert_eq!(env.get("HC3_PASSWORD"), Some("env".to_string()));
    assert_eq!(env.get("HC3_PROTOCOL"), None);
}
