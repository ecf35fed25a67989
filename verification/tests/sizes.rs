use minils::util::file_size_to_string;

#[test]
fn zero_renders_empty() {
    assert_eq!(file_size_to_string(0), "");
}

#[test]
fn small_counts_render_as_bytes() {
    assert_eq!(file_size_to_string(1), "1 B");
    assert_eq!(file_size_to_string(500), "500 B");
    assert_eq!(file_size_to_string(1023), "1023 B");
}

#[test]
fn kilobytes_use_truncating_division() {
    assert_eq!(file_size_to_string(1025), "1 kB");
    assert_eq!(file_size_to_string(1500), "1 kB");
    assert_eq!(file_size_to_string(2048), "2 kB");
    assert_eq!(file_size_to_string(1048575), "1023 kB");
}

#[test]
fn megabytes_and_gigabytes() {
    assert_eq!(file_size_to_string(5 * 1024 * 1024), "5 MB");
    assert_eq!(file_size_to_string(1048577), "1 MB");
    assert_eq!(file_size_to_string(3 * 1024 * 1024 * 1024), "3 GB");
}

#[test]
fn exact_powers_fall_through_to_bytes() {
    assert_eq!(file_size_to_string(1024), "1024 B");
    assert_eq!(file_size_to_string(1048576), "1048576 B");
    assert_eq!(file_size_to_string(1073741824), "1073741824 B");
}

#[test]
fn largest_gigabyte_value_keeps_its_unit() {
    assert_eq!(file_size_to_string(1099511627775), "1023 GB");
}

#[test]
fn tebibyte_and_above_fall_through_to_bytes() {
    assert_eq!(file_size_to_string(1099511627776), "1099511627776 B");
    assert_eq!(file_size_to_string(2199023255552), "2199023255552 B");
}
