use dove_checks::report::{approx, chk, eq, is_true, ok, render_row};

#[test]
fn ok_row_and_message_have_the_documented_shape() {
    let c = ok("Dir3::new rejects zero vector", "(0,0,0)", "Err", "Err", true);
    assert!(c.pass);
    assert_eq!(c.row, "ROW| `Dir3::new rejects zero vector` | (0,0,0) | `Err` | `Err` | ✅ |");
    assert_eq!(c.message, "Dir3::new rejects zero vector [(0,0,0)]: expected Err, got Err");
    assert_eq!(c.expected, "Err");
    assert_eq!(c.got, "Err");
}

#[test]
fn ok_failing_row_carries_the_cross() {
    let c = ok("f", "x", "1", "2", false);
    assert!(!c.pass);
    assert_eq!(c.row, "ROW| `f` | x | `1` | `2` | ❌ |");
    assert_eq!(c.message, "f [x]: expected 1, got 2");
}

#[test]
fn is_true_rows() {
    let yes = is_true("Srgba::is_fully_opaque (WHITE)", "", true);
    assert!(yes.pass);
    assert_eq!(yes.row, "ROW| `Srgba::is_fully_opaque (WHITE)` |  | `true` | `true` | ✅ |");
    let no = is_true("g", "in", false);
    assert!(!no.pass);
    assert_eq!(no.row, "ROW| `g` | in | `true` | `false` | ❌ |");
    assert_eq!(no.message, "g [in]: expected true");
    assert_eq!(no.expected, "true");
    assert_eq!(no.got, "false");
}

fn dbg<T: core::fmt::Debug>(v: &T) -> String {
    format!("{:?}", v)
}

#[test]
fn eq_passes_exactly_on_equal_values() {
    let c = eq("IVec3::dot", "(1,2,3)·(4,5,6)", 32, 32, "32", "32");
    assert!(c.pass);
    assert_eq!(c.row, "ROW| `IVec3::dot` | (1,2,3)·(4,5,6) | `32` | `32` | ✅ |");
    let d = eq("UVec3::element_sum", "(1,2,3)", 6u32, 7u32, "6", "7");
    assert!(!d.pass);
    assert_eq!(d.message, "UVec3::element_sum [(1,2,3)]: expected 6, got 7");
    assert_eq!(d.row, "ROW| `UVec3::element_sum` | (1,2,3) | `6` | `7` | ❌ |");
}

#[test]
fn eq_shows_the_texts_it_is_given() {
    let (a, b) = (vec![1u32, 2, 3], vec![1u32, 2, 3]);
    let c = eq("messages", "", a.clone(), b.clone(), &dbg(&a), &dbg(&b));
    assert!(c.pass);
    assert_eq!(c.expected, "[1, 2, 3]");
    assert_eq!(c.row, "ROW| `messages` |  | `[1, 2, 3]` | `[1, 2, 3]` | ✅ |");
    let s = eq("strings", "", "a", "b", &dbg(&"a"), &dbg(&"b"));
    assert!(!s.pass);
    assert_eq!(s.got, "\"b\"");
    let o = eq("option", "", Some(1u8), None, &dbg(&Some(1u8)), &dbg(&None::<u8>));
    assert!(!o.pass);
    assert_eq!(o.message, "option []: expected Some(1), got None");
}

#[test]
fn approx_uses_the_callers_verdict_and_a_tilde() {
    let c = approx("near", "in", "(1, 2)", "(1, 3)", false);
    assert!(!c.pass);
    assert_eq!(c.message, "near [in]: expected ~(1, 2), got (1, 3)");
    assert_eq!(c.row, "ROW| `near` | in | `(1, 2)` | `(1, 3)` | ❌ |");
    let p = approx("near", "", &dbg(&1.0_f32), &dbg(&1.00001_f32), true);
    assert!(p.pass);
    assert_eq!(p.row, "ROW| `near` |  | `1.0` | `1.00001` | ✅ |");
}

#[test]
fn chk_has_an_empty_input_column() {
    let c = chk("Laba -> Oklaba -> Laba", "5", "5", true);
    assert_eq!(c.row, "ROW| `Laba -> Oklaba -> Laba` |  | `5` | `5` | ✅ |");
    assert_eq!(c.message, "Laba -> Oklaba -> Laba []: expected ~5, got 5");
    assert_eq!(c.expected, "5");
}

#[test]
fn pass_and_fail_rows_differ() {
    let a = render_row("f", "i", "e", "g", true);
    let b = render_row("f", "i", "e", "g", false);
    assert_ne!(a, b);
    assert!(a.ends_with("✅ |"));
    assert!(b.ends_with("❌ |"));
    assert!(a.starts_with("ROW| `f`"));
}
