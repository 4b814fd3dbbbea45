use opengraph_transform::text::{order_of, Order};

#[test]
fn equal_strings_are_the_same() {
    assert_eq!(order_of("", ""), Order::Same);
    assert_eq!(order_of("server$", "server$"), Order::Same);
}

#[test]
fn first_difference_decides() {
    assert_eq!(order_of("a", "b"), Order::Before);
    assert_eq!(order_of("b", "a"), Order::After);
    assert_eq!(order_of("abc", "abd"), Order::Before);
    assert_eq!(order_of("abd", "abc"), Order::After);
    assert_eq!(order_of("az", "b"), Order::Before);
    assert_eq!(order_of("createOpenGraphImage", "server$"), Order::Before);
}

#[test]
fn a_prefix_comes_before_the_longer_string() {
    assert_eq!(order_of("", "a"), Order::Before);
    assert_eq!(order_of("a", ""), Order::After);
    assert_eq!(order_of("createOpenGraphImage", "createOpenGraphImage$"), Order::Before);
    assert_eq!(order_of("createOpenGraphImage$", "createOpenGraphImage"), Order::After);
}

#[test]
fn upper_case_comes_before_lower_case() {
    assert_eq!(order_of("Z", "a"), Order::Before);
    assert_eq!(order_of("OpenGraph", "img"), Order::Before);
}

#[test]
fn code_points_decide_beyond_ascii() {
    assert_eq!(order_of("z", "\u{e9}"), Order::Before);
    assert_eq!(order_of("\u{e9}", "z"), Order::After);
    assert_eq!(order_of("\u{ffff}", "\u{10000}"), Order::Before);
    assert_eq!(order_of("a\u{1f600}", "a\u{1f600}b"), Order::Before);
}

#[test]
fn order_agrees_with_the_order_of_str() {
    let samples =
        ["", "a", "A", "ab", "b", "server$", "createOpenGraphImage", "\u{e9}", "\u{10000}"];
    for x in samples {
        for y in samples {
            let expected = if x < y {
                Order::Before
            } else if x == y {
                Order::Same
            } else {
                Order::After
            };
            assert_eq!(order_of(x, y), expected);
        }
    }
}
