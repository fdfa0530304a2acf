use peekaboo::similarity::{jaro_winkler_scaled, SCORE_UNIT};

fn jw(a: &str, b: &str) -> u64 {
    let av: Vec<char> = a.chars().collect();
    let bv: Vec<char> = b.chars().collect();
    jaro_winkler_scaled(&av, &bv)
}

#[test]
fn classic_pairs_have_their_known_values() {
    // jaro("martha", "marhta") = 17/18; the common prefix "mar" boosts it.
    // In fixed point each term rounds toward zero.
    assert_eq!(jw("martha", "marhta"), 961_111_111_110);

    // Identical strings are fully similar, empty ones too.
    assert_eq!(jw("same", "same"), SCORE_UNIT);
    assert_eq!(jw("", ""), SCORE_UNIT);

    // Disjoint strings are fully dissimilar, and one empty side as well.
    assert_eq!(jw("abc", "xyz"), 0);
    assert_eq!(jw("abc", ""), 0);
    assert_eq!(jw("", "abc"), 0);
}

#[test]
fn prefix_boost_only_fires_above_the_gate() {
    // "dixon"/"dicksonx": jaro = (4/5 + 4/8 + 4/4)/3 = 0.7666..., above the
    // 0.7 gate, so the two-character prefix boosts it.
    let base = (4 * SCORE_UNIT / 5 + 4 * SCORE_UNIT / 8 + SCORE_UNIT) / 3;
    let boosted = base + 2 * (SCORE_UNIT - base) / 10;
    assert_eq!(jw("dixon", "dicksonx"), boosted);
}

#[test]
fn agrees_with_the_reference_implementation() {
    let pairs = [
        ("martha", "marhta"),
        ("dixon", "dicksonx"),
        ("jellyfish", "smellyfish"),
        ("cheeseburger", "cheese fries"),
        ("firefox", "fire"),
        ("chrome", "fire"),
        ("terminal", "term"),
        ("code", "codecs"),
        ("a", "a"),
        ("ab", "ba"),
        ("sim", "im"),
        ("", "nonempty"),
    ];
    for (a, b) in pairs {
        let ours = jw(a, b) as f64 / SCORE_UNIT as f64;
        let reference = strsim::jaro_winkler(a, b);
        assert!(
            (ours - reference).abs() < 1e-9,
            "{a:?} vs {b:?}: ours {ours}, reference {reference}"
        );
    }
}

#[test]
fn result_is_always_bounded() {
    let words = ["", "a", "ab", "abc", "abcd", "xyzzy", "mississippi"];
    for a in words {
        for b in words {
            assert!(jw(a, b) <= SCORE_UNIT);
        }
    }
}
