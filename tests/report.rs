use dir_encoder::report::{decimal, output_file_name, output_file_name_for, size_report};

#[test]
fn output_name_from_directory_and_time() {
    assert_eq!(output_file_name("/tmp/photos", 1700000000), "photos-1700000000.json");
}

#[test]
fn output_name_drops_an_extension_and_a_trailing_slash() {
    assert_eq!(output_file_name("/tmp/photos.d/", 5), "photos-5.json");
}

#[test]
fn output_name_for_a_stem() {
    assert_eq!(output_file_name_for("pics", 0), "pics-0.json");
}

#[test]
fn size_line_for_growth() {
    assert_eq!(size_report(100, 140), "size: 100 -> 140 ( 140.00% )");
}

#[test]
fn size_line_rounds_to_two_decimals() {
    assert_eq!(size_report(3, 1), "size: 3 -> 1 ( 33.33% )");
    assert_eq!(size_report(3, 2), "size: 3 -> 2 ( 66.67% )");
    assert_eq!(size_report(8, 1), "size: 8 -> 1 ( 12.50% )");
}

#[test]
fn size_line_with_nothing_before() {
    assert_eq!(size_report(0, 2), "size: 0 -> 2 ( inf% )");
    assert_eq!(size_report(0, 0), "size: 0 -> 0 ( NaN% )");
}

#[test]
fn decimal_digits() {
    assert_eq!(decimal(0), "0");
    assert_eq!(decimal(1700000000), "1700000000");
    assert_eq!(decimal(u128::MAX), "340282366920938463463374607431768211455");
}
