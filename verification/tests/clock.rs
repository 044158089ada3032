use beautyxt_rs::clock::ClockTime;
use beautyxt_rs::world::SomeWorld;
use typst::foundations::Datetime;

fn world() -> SomeWorld {
    let fonts = typst_assets::fonts().take(13).map(|font| font.to_vec()).collect();
    SomeWorld::new(fonts).unwrap()
}

fn time(year: i32, month: u32, day: u32, hour: u32, minute: u32, second: u32) -> ClockTime {
    ClockTime { year, month, day, hour, minute, second }
}

#[test]
fn the_utc_date_is_chosen_with_the_offset() {
    let world = world();
    let now = time(2023, 12, 31, 22, 30, 15);
    assert_eq!(world.today(now, 0, Some(0)), Datetime::from_ymd_hms(2023, 12, 31, 22, 30, 15));
    assert_eq!(world.today(now, 0, Some(2)), Datetime::from_ymd_hms(2024, 1, 1, 0, 30, 15));
    assert_eq!(world.today(now, 7200, Some(-23)), Datetime::from_ymd_hms(2023, 12, 30, 23, 30, 15));
}

#[test]
fn the_local_date_is_chosen_without_an_offset() {
    let world = world();
    let now = time(2024, 2, 28, 23, 0, 59);
    assert_eq!(world.today(now, 0, None), Datetime::from_ymd_hms(2024, 2, 28, 23, 0, 59));
    assert_eq!(world.today(now, 5400, None), Datetime::from_ymd_hms(2024, 2, 29, 0, 30, 59));
    assert_eq!(world.today(now, -86399, None), Datetime::from_ymd_hms(2024, 2, 27, 23, 1, 0));
}

#[test]
fn there_is_no_date_beyond_four_digits() {
    let world = world();
    assert_eq!(world.today(time(10000, 1, 1, 0, 0, 0), 0, Some(0)), None);
    let last = Datetime::from_ymd_hms(9999, 12, 31, 23, 0, 0);
    assert!(last.is_some());
    assert_eq!(world.today(time(10000, 1, 1, 0, 0, 0), 0, Some(-1)), last);
    assert_eq!(world.today(time(9999, 12, 31, 23, 0, 0), 0, Some(1)), None);
    let first = Datetime::from_ymd_hms(-9999, 1, 1, 0, 0, 0);
    assert!(first.is_some());
    assert_eq!(world.today(time(-9999, 1, 1, 0, 0, 0), 0, None), first);
    assert_eq!(world.today(time(-9999, 1, 1, 0, 0, 0), -1, None), None);
}

#[test]
fn the_edges_of_the_calendar_can_be_shifted() {
    let world = world();
    assert_eq!(world.today(time(-262143, 1, 1, 0, 0, 0), 0, Some(-23)), None);
    assert_eq!(world.today(time(262142, 12, 31, 23, 59, 59), 0, Some(23)), None);
}
