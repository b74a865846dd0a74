use cms_for_rust::expect::{displaying, expect, Similar, ToBe};
use cms_for_rust::ord_mod::{check_bounds, or, ord};
use cms_for_rust::pretty::{pretty_comapre_fn, pretty_compare};
use cms_for_rust::unpretty::{UnPretty, UnPrettyStr};

#[derive(Debug, PartialEq)]
struct Point {
    x: i32,
    y: i32,
}

#[test]
fn test_expect() {
    assert!(expect(&Some("hello world")).to_be(&Some("hello world")).is_ok());

    assert!(expect(&None).not().to_be(&Some("hello world")).is_ok());
    assert!(expect(&430)
        .similar(or(
            ord().greater_than(30).less_than(10),
            ord().greater_than(100).less_than(700),
        ))
        .is_ok());

    assert!(expect(&None).to_be(&Some("hello world")).is_err());

    let similar_to = "helo {

    }

[
 w
]";

    assert!(expect("helo { } [ w ]").similar(displaying(similar_to, ())).is_ok());
    assert!(expect("helo { } [ w ]").similar(similar_to).is_ok());
    assert!(expect("helo { } [ w ]").displaying(similar_to, ()).is_ok());
}

#[test]
fn pretty_collapses_whitespace() {
    assert_eq!(pretty_comapre_fn("helo {\n\n    }\n\n[\n w\n]"), "helo{}[w]");
    assert_eq!(pretty_comapre_fn("f(  a, b  )"), "f(a,b)");
    assert_eq!(pretty_comapre_fn(""), "");
    assert_eq!(pretty_comapre_fn("  x"), "x");
    assert_eq!(pretty_comapre_fn("x \t\n"), "x");
    assert_eq!(pretty_comapre_fn("a \n\t b ; c"), "a b;c");
    assert_eq!(
        pretty_comapre_fn("create table Todo { id int, title string }"),
        "create table Todo{id int,title string}"
    );
}

#[test]
fn pretty_is_idempotent_on_examples() {
    for s in ["helo {\n\n    }\n\n[\n w\n]", "f(  a, b  )", "  a  ( b )  c  ", "\u{2003}x\u{00a0} )"] {
        let once = pretty_comapre_fn(s);
        assert_eq!(pretty_comapre_fn(&once), once);
        let kept: String = s.chars().filter(|c| !c.is_whitespace()).collect();
        let kept_once: String = once.chars().filter(|c| !c.is_whitespace()).collect();
        assert_eq!(kept, kept_once);
    }
}

#[test]
fn pretty_compare_verdicts() {
    assert!(pretty_compare("helo { } [ w ]", "helo {\n }\n[\n w\n]"));
    assert!(pretty_compare("helo{}", "helo { }"));
    assert!(!pretty_compare("helo { } [ w ]", "helo { } [ v ]"));
    assert!(!pretty_compare("a b", "ab"));
}

#[test]
fn displaying_ignores_layout() {
    let to_be = "
        create table Todo {
            id int,
            title string
        }
    ";
    assert!(expect("create table Todo { id int, title string }").displaying(to_be, ()).is_ok());
    assert!(expect("create table Todo { id int, title strings }").displaying(to_be, ()).is_err());
}

#[test]
fn similar_text_failure_message() {
    let r = "a  b ".similar("a c");
    assert_eq!(
        r,
        Err("assertion `left == right` failed\n  left: \"a b\"\n right: \"a c\"".to_string())
    );
    assert!(expect("x").displaying("y", ()).is_err());
}

#[test]
fn un_pretty_trims_and_collapses() {
    let u: UnPrettyStr = "  a   (  b )  \n".un_pretty();
    assert_eq!(u.into_string(), "a (b)");
    assert_eq!(UnPrettyStr::from_string("k".to_string()).into_string(), "k");
}

#[test]
fn ord_bounds() {
    assert!(expect(&5).similar(ord().greater_than(1).less_than(10)).is_ok());
    assert!(expect(&10).similar(ord().less_than(10)).is_err());
    assert!(expect(&7).similar(ord().equal(7)).is_ok());
    assert!(expect(&8).similar(ord().equal(7)).is_err());
    assert!(expect(&5i64).similar(ord().greater_than(5i64)).is_err());
    assert!(expect(&50).similar(or(
        ord().greater_than(30).less_than(10),
        ord().greater_than(100).less_than(700),
    )).is_err());
    assert!(check_bounds(3, Some(4), Some(2), None).is_ok());
    assert!(check_bounds(3, Some(3), None, None).is_err());
    assert!(check_bounds(3, None, Some(3), None).is_err());
    assert!(check_bounds(3, None, None, Some(4)).is_err());
}

#[test]
fn to_be_reports_first_difference() {
    assert!(expect(&Point { x: 1, y: 2 }).to_be(&Point { x: 1, y: 2 }).is_ok());
    let r = expect(&Point { x: 1, y: 2 }).to_be(&Point { x: 1, y: 3 });
    assert_eq!(
        r,
        Err("#.y failed\nexpected: \"2\"\n   found: \"3\"".to_string())
    );
}

#[test]
fn not_default_and_debug_modes() {
    let r = expect(&3).not().to_be(&3);
    assert_eq!(r, Err("values are equal, found: \n3".to_string()));
    assert!(expect(&3).not().to_be(&4).is_ok());
    assert_eq!(
        expect(&3).default().to_be(&4),
        Err("assertion failed \nexpected: 3\n   to be: 4".to_string())
    );
    assert!(expect(&3).default().to_be(&3).is_ok());
    assert!(expect(&vec![1, 2]).debug().to_be(&vec![1, 2]).is_ok());
    assert_eq!(
        expect(&vec![1, 2]).debug().to_be(&vec![1, 2, 3]),
        Err("# is an array with different lengths\n  length: expected 2 but found to be 3\nexpected: [1, 2]\n   found: [1, 2, 3]".to_string())
    );
}

#[test]
fn unequal_values_that_read_back_alike_fail() {
    let a = ("a\\", 1);
    let b = ("a\\", 2);
    let r = expect(&a).to_be(&b);
    assert_eq!(
        r,
        Err(format!("expected: {:?}\n   to be: {:?}", a, b))
    );
    assert!(expect(&a).debug().to_be(&b).is_err());
    assert!(expect(&None).to_be(&Some("hello world")).is_err());
}

#[test]
fn bound_messages() {
    assert_eq!(
        430.similar(ord().greater_than(30).less_than(10)),
        Err("expected: 430 to be less than 10".to_string())
    );
    assert_eq!(
        5.similar(ord().greater_than(30).less_than(3)),
        Err("expected: 5 to be less than 3".to_string())
    );
    assert_eq!(430.similar(ord().greater_than(100).less_than(700)), Ok(()));
    assert_eq!(7.similar(ord().equal(8)), Err("expected: 7 to be equal to 8".to_string()));
    assert_eq!(
        5.similar(ord().greater_than(9)),
        Err("expected: 5 to be greater than 9".to_string())
    );
    assert_eq!(
        (-3i64).similar(ord().equal(-4i64)),
        Err("expected: -3 to be equal to -4".to_string())
    );
    assert_eq!(
        50.similar(or(ord().less_than(10), ord().equal(7))),
        Err("both conditions failed: \nexpected: 50 to be less than 10\nexpected: 50 to be equal to 7"
            .to_string())
    );
    assert_eq!(
        expect(&50).similar(ord().less_than(10)).err(),
        Some("expected: 50 to be less than 10".to_string())
    );
}

#[test]
fn displaying_any_display_value() {
    assert!(expect(&430).displaying(" 430 ", ()).is_ok());
    assert!(expect(&"x y".to_string()).displaying("x\n  y", ()).is_ok());
    assert_eq!(
        expect(&7).displaying("8", ()).err(),
        Some("assertion `left == right` failed\n  left: \"7\"\n right: \"8\"".to_string())
    );
}

#[derive(PartialEq)]
struct Odd(u8);

impl std::fmt::Debug for Odd {
    fn fmt(&self, f: &mut std::fmt::Formatter<'_>) -> std::fmt::Result {
        f.write_str("\"a\\")
    }
}

#[test]
fn unreadable_renderings_fail_as_the_reading_does() {
    assert_eq!(
        expect(&Odd(1)).to_be(&Odd(2)),
        Err("called `Option::unwrap()` on a `None` value".to_string())
    );
    assert!(expect(&Odd(1)).to_be(&Odd(1)).is_ok());
}

#[test]
fn bounds_for_every_integer_type() {
    assert_eq!(200u8.similar(ord().less_than(100u8)), Err("expected: 200 to be less than 100".to_string()));
    assert_eq!(
        u64::MAX.similar(ord().equal(0u64)),
        Err("expected: 18446744073709551615 to be equal to 0".to_string())
    );
    assert_eq!(
        i128::MIN.similar(ord().greater_than(0i128)),
        Err("expected: -170141183460469231731687303715884105728 to be greater than 0".to_string())
    );
    assert!((-5i8).similar(ord().less_than(0i8).greater_than(-10i8)).is_ok());
    assert!(7usize.similar(ord().equal(7usize)).is_ok());
    assert!(3u16.similar(or(ord().less_than(1u16), ord().greater_than(2u16))).is_ok());
}
