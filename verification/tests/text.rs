use aml_transfer::order::{rank_bytes, rank_keys, same_text, Rank};
use aml_transfer::response::{render_coins, Coin};
use aml_transfer::text::{render_bool, render_u128, render_u64};

#[test]
fn decimal_of_zero_is_a_single_digit() {
    assert_eq!(render_u64(0), "0");
    assert_eq!(render_u128(0), "0");
}

#[test]
fn decimal_has_no_leading_zeros() {
    assert_eq!(render_u64(7), "7");
    assert_eq!(render_u64(10), "10");
    assert_eq!(render_u64(500), "500");
    assert_eq!(render_u64(10001), "10001");
    assert_eq!(render_u128(1234567890), "1234567890");
}

#[test]
fn decimal_of_the_largest_values() {
    assert_eq!(render_u64(u64::MAX), "18446744073709551615");
    assert_eq!(render_u128(u128::MAX), "340282366920938463463374607431768211455");
}

#[test]
fn decimal_agrees_with_the_standard_rendering() {
    let mut n: u128 = 1;
    for _ in 0..38 {
        assert_eq!(render_u128(n), n.to_string());
        assert_eq!(render_u128(n - 1), (n - 1).to_string());
        n *= 10;
    }
}

#[test]
fn flags_render_as_words() {
    assert_eq!(render_bool(true), "true");
    assert_eq!(render_bool(false), "false");
}

#[test]
fn funds_render_in_brackets() {
    assert_eq!(render_coins(&vec![]), "[]");
    assert_eq!(render_coins(&vec![Coin::new(100, "ustake")]), "[Coin { 100 \"ustake\" }]");
    assert_eq!(
        render_coins(&vec![Coin::new(100, "ustake"), Coin::new(5, "uatom")]),
        "[Coin { 100 \"ustake\" }, Coin { 5 \"uatom\" }]"
    );
}

#[test]
fn funds_render_as_the_host_types_do() {
    let ours = vec![Coin::new(0, ""), Coin::new(u128::MAX, "ustake"), Coin::new(42, "a\"b")];
    let theirs: Vec<cosmwasm_std::Coin> =
        ours.iter().map(|c| cosmwasm_std::Coin::new(c.amount, c.denom.clone())).collect();
    assert_eq!(render_coins(&ours), format!("{:?}", theirs));
    let none: Vec<cosmwasm_std::Coin> = vec![];
    assert_eq!(render_coins(&vec![]), format!("{:?}", none));
}

#[test]
fn bytes_are_ranked_lexicographically() {
    assert_eq!(rank_bytes(b"", b""), Rank::Same);
    assert_eq!(rank_bytes(b"", b"a"), Rank::Before);
    assert_eq!(rank_bytes(b"a", b""), Rank::After);
    assert_eq!(rank_bytes(b"ab", b"abc"), Rank::Before);
    assert_eq!(rank_bytes(b"abd", b"abc"), Rank::After);
    assert_eq!(rank_bytes(b"b", b"abc"), Rank::After);
    assert_eq!(rank_bytes(&[0x7f], &[0x80]), Rank::Before);
    assert_eq!(rank_bytes(b"abc", b"abc"), Rank::Same);
}

#[test]
fn keys_are_ranked_as_strings_are_ordered() {
    let keys = ["", "W1", "W10", "W2", "a", "ab", "b", "\u{e9}", "\u{4e2d}", "\u{1f600}", "z"];
    for a in keys {
        for b in keys {
            let expected = if a < b {
                Rank::Before
            } else if a == b {
                Rank::Same
            } else {
                Rank::After
            };
            assert_eq!(rank_keys(a, b), expected);
            assert_eq!(same_text(a, b), a == b);
        }
    }
}
