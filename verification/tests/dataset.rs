use trainer::input::Config;
use trainer::layer::SCALAR_ONE;
use trainer::training_data::{process_data, DataError, ParsedExample, TrainingData};

fn config() -> Config {
    Config::new(3, 5000, vec![3]).unwrap()
}

fn raw(entries: &[(&str, &str)]) -> Vec<(String, String)> {
    entries.iter().map(|(n, c)| (n.to_string(), c.to_string())).collect()
}

fn same_examples(a: &[ParsedExample], b: &[ParsedExample]) -> bool {
    a.len() == b.len()
        && a.iter().zip(b.iter()).all(|(x, y)| x.features == y.features && x.rgb == y.rgb)
}

#[test]
fn colors_parse_to_their_channels() {
    let config = config();
    let (data, truncated) = process_data(raw(&[("a", "#ff0000"), ("b", "green")]), &config).unwrap();
    assert_eq!(truncated, 0);
    let mut all: Vec<&ParsedExample> = data.training.iter().chain(data.checking.iter()).collect();
    assert_eq!(all.len(), 2);
    // The split keeps the raw order inside each subset; collect both and sort
    // by the encoded label to compare against the inputs.
    all.sort_by_key(|e| e.features.iter().position(|&s| s == SCALAR_ONE));
    assert_eq!(all[0].rgb, (255, 0, 0));
    assert_eq!(all[1].rgb, (0, 128, 0));
}

#[test]
fn bad_color_is_rejected() {
    let config = config();
    let r = process_data(raw(&[("a", "notacolorname")]), &config);
    assert!(matches!(r, Err(DataError::BadColor)));
}

#[test]
fn css_function_syntax_is_refused() {
    let config = config();
    // css-function syntax never reaches the parser: the engine accepts hex
    // and named colors only.
    let r = process_data(raw(&[("a", "rgb(255,0,0)")]), &config);
    assert!(matches!(r, Err(DataError::UnsupportedColorSyntax)));
    // The syntax refusal is reported even when another entry is merely
    // unparsable; these css shapes would crash the parser if handed to it.
    let r = process_data(
        raw(&[("a", "notacolorname"), ("b", "cmyk(50,3,3,3)"), ("c", "rgb(50%,20,20)")]),
        &config,
    );
    assert!(matches!(r, Err(DataError::UnsupportedColorSyntax)));
}

#[test]
fn long_labels_are_cut_and_counted() {
    let config = config();
    let (data, truncated) = process_data(raw(&[("abcd", "red"), ("xy", "blue")]), &config).unwrap();
    assert_eq!(truncated, 1);
    let all: Vec<&ParsedExample> = data.training.iter().chain(data.checking.iter()).collect();
    // "abcd" was cut to "abc": a single word, right-aligned at the tail of
    // the 81-slot vector.
    let cut = all.iter().find(|e| e.rgb == (255, 0, 0)).unwrap();
    let mut expected = vec![0u32; 81];
    expected[2 * 27] = SCALAR_ONE; // 'a'
    expected[1 * 27 + 1] = SCALAR_ONE; // 'b'
    expected[2] = SCALAR_ONE; // 'c'
    assert_eq!(cut.features, expected);
}

#[test]
fn split_is_deterministic_for_a_fixed_seed() {
    let config = Config::new(5, 5000, vec![3]).unwrap();
    let entries = raw(&[
        ("ash", "red"),
        ("bay", "blue"),
        ("clay", "#00ff00"),
        ("dune", "black"),
        ("elm", "white"),
        ("fern", "teal"),
        ("gold", "gold"),
        ("hill", "navy"),
    ]);
    let (first, _) = process_data(entries.clone(), &config).unwrap();
    let (second, _) = process_data(entries, &config).unwrap();
    assert!(same_examples(&first.training, &second.training));
    assert!(same_examples(&first.checking, &second.checking));
    assert_eq!(first.training.len() + first.checking.len(), 8);
}

#[test]
fn full_ratio_sends_everything_to_training() {
    let config = Config::new(3, 10000, vec![3]).unwrap();
    let (data, _) = process_data(raw(&[("a", "red"), ("b", "blue")]), &config).unwrap();
    assert_eq!(data.training.len(), 2);
    assert_eq!(data.checking.len(), 0);
}

#[test]
fn zero_ratio_sends_everything_to_checking() {
    let config = Config::new(3, 0, vec![3]).unwrap();
    let (data, _) = process_data(raw(&[("a", "red"), ("b", "blue")]), &config).unwrap();
    assert_eq!(data.training.len(), 0);
    assert_eq!(data.checking.len(), 2);
}

#[test]
fn order_is_kept_inside_each_subset() {
    let config = Config::new(5, 5000, vec![3]).unwrap();
    let entries = raw(&[
        ("one", "red"),
        ("two", "blue"),
        ("three", "green"),
        ("four", "white"),
        ("five", "black"),
        ("six", "teal"),
    ]);
    let (data, _) = process_data(entries.clone(), &config).unwrap();
    let TrainingData { training, checking } = data;
    // Walking both subsets merged by the original draw order must visit each
    // subset's entries in their stored order; check that each subset's rgb
    // sequence appears as a subsequence of the full entry list.
    let full: Vec<(u8, u8, u8)> = vec![
        (255, 0, 0),
        (0, 0, 255),
        (0, 128, 0),
        (255, 255, 255),
        (0, 0, 0),
        (0, 128, 128),
    ];
    for subset in [&training, &checking] {
        let mut at = 0usize;
        for e in subset.iter() {
            let pos = full[at..].iter().position(|c| *c == e.rgb).unwrap();
            at += pos + 1;
        }
    }
    assert_eq!(training.len() + checking.len(), 6);
}
