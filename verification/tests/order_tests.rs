use spotsync::order::{compare_bytes, IdOrder};
use spotsync::track::Track;

fn with_id(id: &str, title: &str) -> Track {
    Track {
        title: title.to_string(),
        artists: vec!["Artist".to_string()],
        album: "Album".to_string(),
        id: id.to_string(),
    }
}

fn expected(first: &str, second: &str) -> IdOrder {
    if first < second {
        IdOrder::Before
    } else if first > second {
        IdOrder::After
    } else {
        IdOrder::Same
    }
}

#[test]
fn compare_bytes_orders_lexicographically() {
    assert_eq!(compare_bytes(b"abc", b"abd"), IdOrder::Before);
    assert_eq!(compare_bytes(b"abd", b"abc"), IdOrder::After);
    assert_eq!(compare_bytes(b"abc", b"abc"), IdOrder::Same);
    assert_eq!(compare_bytes(b"b", b"abc"), IdOrder::After);
    assert_eq!(compare_bytes(&[0u8, 255], &[1u8, 0]), IdOrder::Before);
}

#[test]
fn compare_bytes_puts_a_prefix_first() {
    assert_eq!(compare_bytes(b"ab", b"abc"), IdOrder::Before);
    assert_eq!(compare_bytes(b"abc", b"ab"), IdOrder::After);
    assert_eq!(compare_bytes(b"", b"a"), IdOrder::Before);
    assert_eq!(compare_bytes(b"a", b""), IdOrder::After);
    assert_eq!(compare_bytes(b"", b""), IdOrder::Same);
}

#[test]
fn id_order_ignores_the_other_fields() {
    assert_eq!(with_id("a", "Zebra").id_order(&with_id("b", "Apple")), IdOrder::Before);
    assert_eq!(with_id("b", "Apple").id_order(&with_id("a", "Zebra")), IdOrder::After);
    assert_eq!(with_id("a", "Zebra").id_order(&with_id("a", "Apple")), IdOrder::Same);
}

#[test]
fn id_order_agrees_with_the_order_of_strings() {
    let ids = ["", "0", "6rqhFgbbKwnb9MLmUQDhG6", "6rqhFgbbKwnb9MLmUQDhG7", "A", "a", "ab", "b", "é", "z", "日本", "\u{10348}"];
    for first in ids {
        for second in ids {
            assert_eq!(with_id(first, "x").id_order(&with_id(second, "y")), expected(first, second));
        }
    }
}
