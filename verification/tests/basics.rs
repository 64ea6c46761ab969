use nebula_apps::clock::{date_of, hour_at, number_of, show_moment, show_stamp, Span};
use nebula_apps::date::Date;
use nebula_apps::decimal::Decimal;
use nebula_apps::figures::{count, grouped, money, opt_plain, opt_qty, qty, signed, window};
use nebula_apps::scm::document::{amount, quantity};
use nebula_apps::sort::arrange;
use nebula_apps::sums::sum;
use nebula_apps::text::{
    blank, join_lines, keep_text, keep_trimmed, push_lines, show_int, show_padded, sorts_before,
    title_case, trim,
};
use nebula_apps::tile::{show_day, show_number, trend_of, TrendDirection};

fn d(n: i64, scale: u32) -> Decimal {
    Decimal::new(n, scale)
}

#[test]
fn sums_are_exact() {
    let a = d(10050, 2);
    let b = d(5, 1);
    let s = a.checked_add(b).unwrap();
    assert_eq!((s.mantissa(), s.scale()), (10100, 2));
    let m = a.checked_sub(b).unwrap();
    assert_eq!((m.mantissa(), m.scale()), (10000, 2));
    assert_eq!(sum(&vec![d(1, 0), d(25, 2), d(-5, 1)]).unwrap().text(), "0.75");
}

#[test]
fn products_and_quotients() {
    assert_eq!(d(12, 1).checked_mul(d(3, 0)).unwrap().text(), "3.6");
    assert_eq!(d(100, 2).checked_div(d(4, 0)).unwrap().text(), "0.25");
    assert_eq!(d(1, 0).checked_div(d(3, 0)).unwrap().round_dp(4).text(), "0.3333");
    assert!(d(1, 0).checked_div(Decimal::zero()).is_none());
}

#[test]
fn what_does_not_fit_is_refused() {
    let big = Decimal::from_parts((1i128 << 96) - 1, 0).unwrap();
    assert!(big.checked_add(d(1, 0)).is_none());
    assert!(big.checked_mul(d(2, 0)).is_none());
    assert!(Decimal::from_parts(1i128 << 96, 0).is_none());
    assert!(Decimal::from_parts(1, 29).is_none());
}

#[test]
fn halves_round_to_the_even_digit() {
    assert_eq!(d(2345, 3).round_dp(2).text(), "2.34");
    assert_eq!(d(2355, 3).round_dp(2).text(), "2.36");
    assert_eq!(d(-2345, 3).round_dp(2).text(), "-2.34");
    assert_eq!(d(23451, 4).round_dp(2).text(), "2.35");
    assert_eq!(d(5, 0).round_dp(2).text(), "5");
}

#[test]
fn fixed_places_cut_off() {
    assert_eq!(d(1999, 3).to_fixed(2), "1.99");
    assert_eq!(d(-5, 1).to_fixed(2), "-0.50");
    assert_eq!(d(7, 0).to_fixed(2), "7.00");
    assert_eq!(d(7, 0).to_fixed(0), "7");
}

#[test]
fn numbers_compare_by_worth() {
    assert!(d(10, 1).equals(&d(1, 0)));
    assert!(d(10, 1) == d(100, 2));
    assert!(d(-1, 0).less(&Decimal::zero()));
    assert!(!d(1, 0).less(&d(100, 2)));
    assert_eq!(d(3, 0).min(d(2, 0)).text(), "2");
    assert_eq!(d(3, 0).max(d(2, 0)).text(), "3");
}

#[test]
fn normalizing_strips_zeros() {
    let n = d(100000, 4).normalize();
    assert_eq!((n.mantissa(), n.scale()), (10, 0));
    let z = d(0, 5).normalize();
    assert_eq!((z.mantissa(), z.scale()), (0, 0));
    assert_eq!(d(5, 1).negate().text(), "-0.5");
}

#[test]
fn texts_read_back_as_numbers() {
    let n = d(-120, 3);
    let back = Decimal::parse(&n.text()).unwrap();
    assert_eq!((back.mantissa(), back.scale()), (-120, 3));
    let big = Decimal::from_parts((1i128 << 96) - 1, 28).unwrap();
    let back = Decimal::parse(&big.text()).unwrap();
    assert_eq!((back.mantissa(), back.scale()), ((1i128 << 96) - 1, 28));
    assert!(Decimal::parse("ten").is_err());
    assert!(Decimal::parse("").is_err());
}

#[test]
fn text_is_trimmed_of_all_white_space() {
    assert_eq!(trim(" \u{2003}till\u{a0}\n"), "till");
    assert!(blank("\t \u{3000}"));
    assert!(!blank(" x "));
    assert_eq!(keep_text(Some("  ".to_string())), None);
    assert_eq!(keep_text(Some(" a ".to_string())), Some(" a ".to_string()));
    assert_eq!(keep_trimmed(Some(" a ".to_string())), Some("a".to_string()));
}

#[test]
fn titles_start_with_a_capital() {
    assert_eq!(title_case("asset"), "Asset");
    assert_eq!(title_case("\u{e9}quity"), "\u{c9}quity");
    assert_eq!(title_case("\u{df}"), "SS");
    assert_eq!(title_case(""), "");
}

#[test]
fn lines_split_and_join() {
    let mut out = Vec::new();
    push_lines(&mut out, "a\r\nb\n\nc");
    assert_eq!(out, vec!["a", "b", "c"]);
    assert_eq!(join_lines(&out), "a\nb\nc");
}

#[test]
fn whole_numbers_are_written_out() {
    assert_eq!(show_int(i64::MIN), "-9223372036854775808");
    assert_eq!(show_padded(7, 2), "07");
    assert_eq!(show_padded(123, 4), "0123");
    assert_eq!(signed(180), "+180");
    assert_eq!(signed(-30), "-30");
}

#[test]
fn texts_sort_by_their_characters() {
    assert!(sorts_before("1000", "1010"));
    assert!(sorts_before("", "a"));
    assert!(!sorts_before("a", "a"));
}

#[test]
fn calendars_know_leap_years() {
    assert!(Date::from_ymd(2024, 2, 29).is_some());
    assert!(Date::from_ymd(2023, 2, 29).is_none());
    assert!(Date::from_ymd(1900, 2, 29).is_none());
    assert!(Date::from_ymd(2000, 2, 29).is_some());
    let d = Date::from_ymd(2024, 3, 1).unwrap();
    assert_eq!(d.pred().unwrap().iso(), "2024-02-29");
    assert_eq!(Date::from_ymd(2024, 1, 1).unwrap().pred().unwrap().iso(), "2023-12-31");
    assert!(Date::from_ymd(-262143, 1, 1).unwrap().pred().is_none());
    assert_eq!(d.plus_days(365).unwrap().iso(), "2025-03-01");
    assert_eq!(d.plus_days(-1).unwrap().iso(), "2024-02-29");
    assert!(d.plus_days(i32::MAX).is_none());
}

#[test]
fn dates_are_written_in_many_ways() {
    let d = Date::from_ymd(2026, 7, 6).unwrap();
    assert_eq!(d.iso(), "2026-07-06");
    assert_eq!(d.named(), "06-Jul-2026");
    assert_eq!(d.month_and_year(), "Jul 2026");
    assert_eq!(show_day(&d), "06 Jul");
    assert_eq!(Date::from_ymd(12345, 1, 2).unwrap().iso(), "+12345-01-02");
    assert_eq!(Date::from_ymd(-5, 1, 2).unwrap().iso(), "-0005-01-02");
}

#[test]
fn moments_fall_into_days_and_hours() {
    // 2026-07-06 09:30 in Greenwich.
    let at: i64 = 1_783_330_200_000_000;
    assert_eq!(show_stamp(at).unwrap(), "2026-07-06 09:30");
    assert_eq!(show_moment(at).unwrap(), "06 Jul 09:30");
    assert_eq!(hour_at(at, 0), 9);
    assert_eq!(hour_at(at, 180), 12);
    assert_eq!(hour_at(at, -600), 23);
    assert_eq!(show_stamp(-1).unwrap(), "1969-12-31 23:59");
    assert_eq!(hour_at(-1, 0), 23);
    assert!(show_stamp(i64::MAX).is_none());
    assert_eq!(number_of(&Date::from_ymd(1970, 1, 1).unwrap()), 719163);
    assert_eq!(number_of(&Date::from_ymd(1, 1, 1).unwrap()), 1);
    let day = Date::from_ymd(2026, 7, 6).unwrap();
    let span = Span { from: Some(day), to: Some(day) };
    assert!(span.holds(at));
    assert!(!span.holds(at + 86_400_000_000));
    assert!(!span.holds(at - 86_400_000_000));
    assert!(Span { from: None, to: None }.holds(i64::MIN));
}

#[test]
fn figures_leave_zero_blank() {
    assert_eq!(money(Decimal::zero()), "");
    assert_eq!(money(d(5, 0)), "5.00");
    assert_eq!(qty(d(1500, 3)), "1.5");
    assert_eq!(qty(d(0, 3)), "");
    assert_eq!(opt_qty(None), "");
    assert_eq!(opt_plain(Some(d(125, 1))), "12.5");
    assert_eq!(count(0), "");
    assert_eq!(count(3), "3");
    let a = Date::from_ymd(2026, 7, 1);
    let b = Date::from_ymd(2026, 7, 31);
    assert_eq!(window(a, b), ", 2026-07-01 to 2026-07-31");
    assert_eq!(window(a, None), ", from 2026-07-01");
    assert_eq!(window(None, b), ", to 2026-07-31");
    assert_eq!(window(None, None), "");
}

#[test]
fn arranging_is_stable() {
    let list = vec![d(10, 1), d(2, 0), d(1, 0), d(3, 0)];
    let sorted = arrange(list);
    let shown: Vec<String> = sorted.iter().map(|n| n.text()).collect();
    assert_eq!(shown, vec!["3", "2", "1.0", "1"]);
}

#[test]
fn trends_follow_the_sign() {
    assert_eq!(trend_of(d(1, 0)), TrendDirection::Up);
    assert_eq!(trend_of(d(-1, 0)), TrendDirection::Down);
    assert_eq!(trend_of(d(0, 2)), TrendDirection::Flat);
    assert_eq!(show_number(&None), "\u{2014}");
}

#[test]
fn the_widest_numbers_are_written_out() {
    let big = Decimal::from_parts((1i128 << 96) - 1, 0).unwrap();
    assert_eq!(big.to_fixed(2), "79228162514264337593543950335.00");
    assert_eq!(big.negate().to_fixed(2), "-79228162514264337593543950335.00");
    let fine = Decimal::from_parts(-(1i128 << 96) + 1, 28).unwrap();
    assert_eq!(fine.text(), "-7.9228162514264337593543950335");
    assert_eq!(fine.to_fixed(28), fine.text());
}

#[test]
fn thousands_are_separated() {
    assert_eq!(grouped(d(124000, 2)), "1,240.00");
    assert_eq!(grouped(d(99999, 2)), "999.99");
    assert_eq!(grouped(d(-5, 3)), "-0.00");
    assert_eq!(grouped(d(1000000, 0)), "1,000,000.00");
    assert_eq!(d(-123456, 3).whole(), 123);
    assert_eq!(d(-123456, 3).cents(), 45);
    assert_eq!(d(5, 1).cents(), 50);
}

#[test]
fn amounts_are_told_by_their_texts() {
    for n in [0, 5, -5, 100, -12345, 1240000] {
        let a = d(n, 2);
        let read = Decimal::parse(&amount(a)).unwrap();
        assert!(read.equals(&a));
    }
    assert!(Decimal::parse(&amount(d(7, 0))).unwrap().equals(&d(7, 0)));
    let most: i128 = (1i128 << 96) - 1;
    for n in [most, -most, most / 10, -(most / 10), most - 5] {
        for scale in 0..3 {
            let a = Decimal::from_parts(n, scale).unwrap();
            assert!(Decimal::parse(&amount(a)).unwrap().equals(&a));
        }
    }
    assert_ne!(amount(d(1, 2)), amount(d(-1, 2)));
}

#[test]
fn quantities_are_told_by_their_texts() {
    assert_eq!(quantity(d(100000, 4)), quantity(d(10, 0)));
    assert_eq!(quantity(d(2500, 3)), "2.5");
    assert_eq!(quantity(d(100, 0)), "100");
    assert_eq!(quantity(d(0, 4)), "0");
    assert!(Decimal::parse(&quantity(d(-1250, 3))).unwrap().equals(&d(-125, 2)));
}

#[test]
fn finite_quotients_are_exact() {
    let share = d(123456789, 4).checked_div(Decimal::one_hundred()).unwrap();
    assert!(share.equals(&d(123456789, 6)));
    assert!(d(-25, 0).checked_div(d(2, 0)).unwrap().equals(&d(-125, 1)));
    assert!(d(1, 0).checked_div(d(1024, 0)).is_some());
    assert!(d(7, 2).checked_div(d(16, 0)).unwrap().equals(&d(4375, 6)));
    assert!(d(1, 0).checked_div(d(3, 0)).unwrap().less(&d(34, 2)));
}

#[test]
fn titles_change_their_first_letter_once() {
    assert_eq!(title_case("asset"), "Asset");
    assert_eq!(title_case(&title_case("asset")), "Asset");
    assert_eq!(title_case("1st"), "1st");
    assert_eq!(title_case("\u{e9}t\u{e9}"), "\u{c9}t\u{e9}");
}

#[test]
fn moments_have_a_day() {
    assert_eq!(date_of(0).unwrap().iso(), "1970-01-01");
    assert_eq!(date_of(-1).unwrap().iso(), "1969-12-31");
    assert!(date_of(i64::MAX).is_none());
}

#[test]
fn white_space_is_what_unicode_says() {
    for n in 0..0x11_0000u32 {
        if let Some(c) = char::from_u32(n) {
            assert_eq!(blank(&c.to_string()), c.is_whitespace());
        }
    }
}
