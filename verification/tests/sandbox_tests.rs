use proctor_core::sandbox::check_name_escapes;

#[test]
fn parent_escape_is_denied() {
    assert!(check_name_escapes("../secret"));
}

#[test]
fn absolute_name_is_denied() {
    assert!(check_name_escapes("/etc/passwd"));
}

#[test]
fn plain_name_stays_inside() {
    assert!(!check_name_escapes("x.txt"));
}

#[test]
fn balanced_parent_stays_inside() {
    assert!(!check_name_escapes("a/../b.txt"));
}

#[test]
fn deep_escape_is_denied() {
    assert!(check_name_escapes("a/../../b.txt"));
}

#[test]
fn dot_components_stay_inside() {
    assert!(!check_name_escapes("./a/./b"));
}

#[test]
fn escape_then_return_is_still_denied() {
    assert!(check_name_escapes("../x/y"));
}
