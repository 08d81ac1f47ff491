use dove_checks::decimal::decimal_string;
use dove_checks::layout::rec;

#[test]
fn decimal_matches_format() {
    for n in [0usize, 1, 9, 10, 16, 99, 100, 12345, 4096, usize::MAX] {
        assert_eq!(decimal_string(n), format!("{}", n));
    }
    assert_eq!(decimal_string(16), "16");
    assert_eq!(decimal_string(0), "0");
}

#[test]
fn rec_records_size_and_alignment() {
    let c = rec::<u32>("size/align u32");
    assert!(c.pass);
    assert_eq!(c.got, "4 / 4");
    assert_eq!(c.expected, "size / align");
    assert_eq!(c.row, "ROW| `size/align u32` |  | `size / align` | `4 / 4` | ✅ |");
}

#[test]
fn rec_of_odd_layouts() {
    assert_eq!(rec::<[u8; 3]>("bytes").got, "3 / 1");
    assert_eq!(rec::<[u16; 12]>("halves").got, "24 / 2");
    assert_eq!(rec::<()>("unit").got, "0 / 1");
    let c = rec::<[u64; 2]>("pair");
    assert_eq!(c.got, format!("{} / {}", core::mem::size_of::<[u64; 2]>(), core::mem::align_of::<[u64; 2]>()));
}
