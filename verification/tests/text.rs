use liboswo::text::{
    chars_of, eq_ignore_case, eq_str, fold, push_decimal, push_right_aligned, push_signed_decimal,
    push_spaces, str_precedes,
};
use liboswo::{Mode, Output, Scale};

fn built(f: impl Fn(&mut String)) -> String {
    let mut out = String::from(">");
    f(&mut out);
    out
}

#[test]
fn whole_numbers_in_decimal() {
    assert_eq!(built(|s| push_decimal(s, 0)), ">0");
    assert_eq!(built(|s| push_decimal(s, 7)), ">7");
    assert_eq!(built(|s| push_decimal(s, 10)), ">10");
    assert_eq!(built(|s| push_decimal(s, 3840)), ">3840");
    assert_eq!(built(|s| push_decimal(s, 1_000_000)), ">1000000");
    assert_eq!(built(|s| push_decimal(s, u128::MAX)), format!(">{}", u128::MAX));
    assert_eq!(built(|s| push_signed_decimal(s, 0)), ">0");
    assert_eq!(built(|s| push_signed_decimal(s, -1)), ">-1");
    assert_eq!(built(|s| push_signed_decimal(s, -1920)), ">-1920");
    assert_eq!(built(|s| push_signed_decimal(s, i64::MIN)), format!(">{}", i64::MIN));
    assert_eq!(built(|s| push_signed_decimal(s, i64::MAX)), format!(">{}", i64::MAX));
    for d in 0..10u128 {
        assert_eq!(built(|s| push_decimal(s, d)), format!(">{}", d));
        assert_eq!(built(|s| push_decimal(s, 120 + d)), format!(">{}", 120 + d));
    }
}

fn hertz(refresh: u32) -> String {
    let modes = vec![Mode { width: 1, height: 1, refresh }];
    let out =
        Output::new("A".to_owned(), "m".to_owned(), (0, 0), (1, 1), Scale::new(1_000_000), true, modes);
    let line = out.display(true, 0);
    let from = line.find('(').unwrap() + 1;
    let to = line.find(" Hz)").unwrap();
    line[from..to].to_owned()
}

#[test]
fn fixed_point_numbers_in_decimal() {
    assert_eq!(hertz(60000), "60");
    assert_eq!(hertz(59940), "59.94");
    assert_eq!(hertz(59951), "59.951");
    assert_eq!(hertz(143999), "143.999");
    assert_eq!(hertz(1), "0.001");
    assert_eq!(hertz(10), "0.01");
    assert_eq!(hertz(100), "0.1");
    assert_eq!(hertz(1050), "1.05");
    assert_eq!(hertz(0), "0");
    assert_eq!(hertz(u32::MAX), "4294967.295");
    assert_eq!(Scale::new(123_456).text(), "0.123456");
    assert_eq!(Scale::new(120_000).text(), "0.12");
    assert_eq!(Scale::new(7_000_100).text(), "7.0001");
}

#[test]
fn columns_are_padded_on_the_left() {
    assert_eq!(built(|s| push_spaces(s, 0)), ">");
    assert_eq!(built(|s| push_spaces(s, 3)), ">   ");
    assert_eq!(built(|s| push_right_aligned(s, "0", 4)), ">   0");
    assert_eq!(built(|s| push_right_aligned(s, "1920", 4)), ">1920");
    assert_eq!(built(|s| push_right_aligned(s, "-1920", 4)), ">-1920");
    assert_eq!(built(|s| push_right_aligned(s, "", 2)), ">  ");
    assert_eq!(built(|s| push_right_aligned(s, "äö", 4)), ">  äö");
}

#[test]
fn names_are_compared_without_case() {
    assert!(eq_ignore_case("eDP-1", "edp-1"));
    assert!(eq_ignore_case("HDMI-A-1", "hdmi-a-1"));
    assert!(eq_ignore_case("", ""));
    assert!(eq_ignore_case("AZaz", "azAZ"));
    assert!(!eq_ignore_case("eDP-1", "eDP-2"));
    assert!(!eq_ignore_case("eDP-1", "eDP-11"));
    assert!(!eq_ignore_case("@", "`"));
    assert!(!eq_ignore_case("[", "{"));
    assert!(!eq_ignore_case("Ä", "ä"));
    assert!(eq_ignore_case("Äa", "ÄA"));
    assert_eq!(fold('A'), 'a');
    assert_eq!(fold('Z'), 'z');
    assert_eq!(fold('m'), 'm');
    assert_eq!(fold('@'), '@');
    assert_eq!(fold('['), '[');
    assert_eq!(fold('É'), 'É');
    for (a, b) in [("Dp-1", "dP-1"), ("x", "X"), ("x", "y"), ("K", "k"), ("ſ", "s")] {
        assert_eq!(eq_ignore_case(a, b), a.eq_ignore_ascii_case(b));
    }
}

#[test]
fn strings_are_compared_exactly() {
    assert!(eq_str("Dell U2720Q", "Dell U2720Q"));
    assert!(eq_str("", ""));
    assert!(!eq_str("Dell U2720Q", "dell U2720Q"));
    assert!(!eq_str("Dell", "Dell "));
    assert!(!eq_str("", "a"));
    assert_eq!(chars_of("aä€"), vec!['a', 'ä', '€']);
    assert_eq!(chars_of(""), Vec::<char>::new());
}

#[test]
fn order_of_names_is_that_of_strings() {
    let words = ["", "A", "B", "a", "ab", "abc", "b", "work", "work2", "Work", "ä", "z", "€", "😀", "a😀"];
    for a in words {
        for b in words {
            assert_eq!(str_precedes(a, b), a < b, "{:?} {:?}", a, b);
        }
    }
}
