use rye::args::Args;

#[test]
fn from_pairs_round_trips() {
    let args = Args::from_pairs(&[("shape", "tesseract"), ("seed", "42")]);
    assert_eq!(args.get("shape"), Some("tesseract"));
    assert_eq!(args.get("seed"), Some("42"));
    assert_eq!(args.get("missing"), None);
}

#[test]
fn parse_returns_typed_or_none() {
    let args = Args::from_pairs(&[("seed", "42"), ("fov", "60.5"), ("bad", "nope")]);
    assert_eq!(args.parse::<u32>("seed"), Some(42));
    assert_eq!(args.parse::<f32>("fov"), Some(60.5));
    assert_eq!(args.parse::<u32>("bad"), None);
    assert_eq!(args.parse::<u32>("missing"), None);
}

#[test]
fn get_many_splits_on_comma_and_drops_empties() {
    let args = Args::from_pairs(&[("shapes", "tesseract,5-cell,,8-cell,")]);
    assert_eq!(args.get_many("shapes"), vec!["tesseract", "5-cell", "8-cell"]);
    assert!(args.get_many("missing").is_empty());
}

fn words(list: &[&str]) -> Vec<String> {
    list.iter().map(|s| s.to_string()).collect()
}

#[test]
fn command_line_forms() {
    let args = Args::from_arguments(&words(&["--seed=7", "--shape", "cube", "--debug", "stray", "-x"]));
    assert_eq!(args.get("seed"), Some("7"));
    assert_eq!(args.get("shape"), None);
    assert_eq!(args.get("debug"), None);
    assert_eq!(args.iter().len(), 1);
}

#[test]
fn later_argument_overrides() {
    let args = Args::from_arguments(&words(&["--seed=7", "--seed=9"]));
    assert_eq!(args.get("seed"), Some("9"));
    assert_eq!(args.iter().len(), 1);
}

#[test]
fn hash_overrides_search() {
    let args = Args::from_location("?shape=cube&seed=1", "#seed=2&flag");
    assert_eq!(args.get("shape"), Some("cube"));
    assert_eq!(args.get("seed"), Some("2"));
    assert_eq!(args.get("flag"), None);
    let spaced = Args::from_location("?name=a+b=c", "");
    assert_eq!(spaced.get("name"), Some("a b=c"));
}

#[test]
fn iter_lists_every_pair_once() {
    let args = Args::from_pairs(&[("b", "1"), ("a", "2"), ("b", "3")]);
    let mut pairs = args.iter();
    pairs.sort();
    assert_eq!(pairs, vec![("a", "2"), ("b", "3")]);
}

#[test]
fn empty_args() {
    let args = Args::new();
    assert!(args.iter().is_empty());
    assert_eq!(args.parse::<bool>("x"), None);
}
