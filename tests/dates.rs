use nettruyen::time::convert_time;

const NOW: i64 = 1_700_000_000;

#[test]
fn relative_ages() {
    assert_eq!(convert_time("0 giây trước", NOW), NOW);
    assert_eq!(convert_time("30 giây trước", NOW), NOW - 30);
    assert_eq!(convert_time("5 phút trước", NOW), NOW - 300);
    assert_eq!(convert_time("2 giờ trước", NOW), NOW - 7200);
    assert_eq!(convert_time("3 ngày trước", NOW), NOW - 259200);
    assert_eq!(convert_time("1 tuần trước", NOW), NOW - 604800);
    assert_eq!(convert_time("2 tháng trước", NOW), NOW - 5184000);
    assert_eq!(convert_time("1 năm trước", NOW), NOW - 31536000);
}

#[test]
fn absolute_dates() {
    assert_eq!(convert_time("01/01/22", NOW), 1640995200);
    assert_eq!(convert_time("15/08/23", NOW), 1692057600);
    assert_eq!(convert_time("29/02/00", NOW), 951782400);
    assert_eq!(convert_time("31/12/99", NOW), 4102358400);
}

#[test]
fn unreadable_dates_give_zero() {
    assert_eq!(convert_time("", NOW), 0);
    assert_eq!(convert_time("hôm qua", NOW), 0);
    assert_eq!(convert_time("5 phút", NOW), 0);
    assert_eq!(convert_time("phút trước", NOW), 0);
    assert_eq!(convert_time("1234567890 giây trước", NOW), 0);
    assert_eq!(convert_time("32/01/22", NOW), 0);
    assert_eq!(convert_time("01/13/22", NOW), 0);
    assert_eq!(convert_time("1/1/2022", NOW), 0);
}

#[test]
fn age_before_the_representable_range_gives_zero() {
    assert_eq!(convert_time("1 giây trước", i64::MIN), 0);
    assert_eq!(convert_time("1 giây trước", i64::MIN + 1), i64::MIN);
}
