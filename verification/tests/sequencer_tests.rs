use gradient_string::Gradient;

fn collect_windows(mut g: Gradient) -> Vec<String> {
    let mut out: Vec<String> = Vec::new();
    while let Some(w) = g.next() {
        out.push(w);
    }
    out
}

#[test]
fn gradient() {
    let result = collect_windows(Gradient::new(" abc "));
    assert_eq!(
        result,
        vec![
            " ", "a", "b", "c", " ", " a", "ab", "bc", "c ", " ab", "abc", "bc ", " abc",
            "abc ", " abc "
        ]
    );
}

#[test]
fn empty() {
    assert_eq!(collect_windows(Gradient::new("")).len(), 0);
}

#[test]
fn max_width() {
    let result = collect_windows(Gradient::with_max_width(" abc ", Some(2)));
    assert_eq!(
        result,
        vec![" ", "a", "b", "c", " ", " a", "ab", "bc", "c "]
    );
}

#[test]
fn empty_source_with_any_max_width() {
    assert_eq!(collect_windows(Gradient::with_max_width("", Some(0))).len(), 0);
    assert_eq!(collect_windows(Gradient::with_max_width("", Some(3))).len(), 0);
    assert_eq!(collect_windows(Gradient::with_max_width("", None)).len(), 0);
}

#[test]
fn max_width_zero_produces_nothing() {
    assert_eq!(collect_windows(Gradient::with_max_width("abc", Some(0))).len(), 0);
}

#[test]
fn max_width_beyond_length_matches_unbounded() {
    let capped = collect_windows(Gradient::with_max_width("abc", Some(10)));
    let unbounded = collect_windows(Gradient::new("abc"));
    assert_eq!(capped, unbounded);
    assert_eq!(capped, vec!["a", "b", "c", "ab", "bc", "abc"]);
}

#[test]
fn max_width_equal_to_length_matches_unbounded() {
    let capped = collect_windows(Gradient::with_max_width("abc", Some(3)));
    let unbounded = collect_windows(Gradient::new("abc"));
    assert_eq!(capped, unbounded);
}

#[test]
fn with_max_width_none_matches_new() {
    let a = collect_windows(Gradient::new(" abc "));
    let b = collect_windows(Gradient::with_max_width(" abc ", None));
    assert_eq!(a, b);
}

#[test]
fn single_element_source() {
    assert_eq!(collect_windows(Gradient::new("x")), vec!["x"]);
}

#[test]
fn fresh_sequencer_accessors() {
    let g = Gradient::new("abc");
    assert_eq!(g.width(), 1);
    assert_eq!(g.start(), 0);
    assert_eq!(g.end(), 0);
    assert_eq!(g.range(), 0..0);
    assert_eq!(g.len(), 3);
    assert_eq!(g.window(), "");
    assert_eq!(g.input(), "");
    assert!(!g.finished());
}

#[test]
fn empty_source_is_finished_immediately() {
    let mut g = Gradient::new("");
    assert!(g.finished());
    assert_eq!(g.next(), None);
    assert!(g.finished());
}

#[test]
fn exhausted_sequencer_stays_exhausted() {
    let mut g = Gradient::new("ab");
    while g.next().is_some() {}
    assert_eq!(g.next(), None);
    assert_eq!(g.next(), None);
    assert!(g.finished());
}

#[test]
fn len_counts_elements_not_encoded_units() {
    let g = Gradient::new("héllo");
    assert_eq!(g.len(), 5);
}

#[test]
fn multibyte_windows_split_on_element_boundaries() {
    let result = collect_windows(Gradient::with_max_width("héo", Some(2)));
    assert_eq!(result, vec!["h", "é", "o", "hé", "éo"]);
}
