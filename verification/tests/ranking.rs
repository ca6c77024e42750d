use openai_codex_proxy::ranking::RankKey;
use openai_codex_proxy::ranking::stable_order;

fn key(reset: i64, used: i64, score: i32, id: &str) -> RankKey {
    RankKey { reset, used, score, id: id.to_string() }
}

#[test]
fn ranks_by_reset_then_use_then_score_then_id() {
    let keys = vec![
        key(5, 0, 0, "a"),
        key(1, 1, 0, "a"),
        key(1, 9, 0, "a"),
        key(1, 9, 7, "b"),
        key(1, 9, 7, "a"),
    ];
    assert_eq!(stable_order(&keys), vec![4, 3, 2, 1, 0]);
}

#[test]
fn equal_keys_stay_in_their_order() {
    let keys = vec![key(0, 0, 0, "x"), key(0, 0, 0, "x"), key(-1, 0, 0, "x")];
    assert_eq!(stable_order(&keys), vec![2, 0, 1]);
}

#[test]
fn order_does_not_depend_on_how_keys_are_listed() {
    let ids = |keys: &Vec<RankKey>| -> Vec<String> {
        stable_order(keys).iter().map(|i| keys[*i].id.clone()).collect()
    };
    let forth = vec![key(i64::MIN, -1, 3, "a"), key(i64::MIN, -1, 9, "b"), key(0, 5, 9, "c")];
    let back = vec![key(0, 5, 9, "c"), key(i64::MIN, -1, 9, "b"), key(i64::MIN, -1, 3, "a")];
    assert_eq!(ids(&forth), vec!["b", "a", "c"]);
    assert_eq!(ids(&back), ids(&forth));
}

#[test]
fn sorts_as_std_does() {
    let mut keys = Vec::new();
    let mut n: i64 = 7;
    for i in 0..60 {
        n = (n * 1103515245 + 12345) % 2147483648;
        let id = format!("{}", n % 5);
        keys.push(key(n % 3, (n / 7) % 3, ((n / 49) % 3) as i32 + i % 2, &id));
    }
    let mut expected: Vec<usize> = (0..keys.len()).collect();
    expected.sort_by(|a, b| {
        let (a, b) = (&keys[*a], &keys[*b]);
        a.reset
            .cmp(&b.reset)
            .then(b.used.cmp(&a.used))
            .then(b.score.cmp(&a.score))
            .then(a.id.cmp(&b.id))
    });
    assert_eq!(stable_order(&keys), expected);
}
