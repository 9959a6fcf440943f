use dialog_cursor_mover::dialog::{is_cancel_label, label_score, normalize_label, same_button_row, Rect};

fn rect(left: i32, top: i32, right: i32, bottom: i32) -> Rect {
    Rect { left, top, right, bottom }
}

#[test]
fn mnemonics_are_stripped_from_labels() {
    assert_eq!(normalize_label("&OK"), "OK");
    assert_eq!(normalize_label("保存(&S)"), "保存");
    assert_eq!(normalize_label("ファイルを置き換える(R)"), "ファイルを置き換える");
    assert_eq!(normalize_label("次へ (&N)"), "次へ");
    // full-width brackets too
    assert_eq!(normalize_label("はい（Y）"), "はい");
    // kept when the brackets hold more than one letter or digit
    assert_eq!(normalize_label("設定 (詳細)"), "設定 (詳細)");
}

#[test]
fn default_labels_are_recognised() {
    let none: &[String] = &[];
    assert!(label_score("OK", none) > 0);
    assert!(label_score("はい", none) > 0);
    assert!(label_score("&Yes", none) > 0);
    assert!(label_score("Continue", none) > 0);
    assert_eq!(label_score("Delete", none), 0);
    assert_eq!(label_score("", none), 0);
}

#[test]
fn extra_labels_are_honoured() {
    let extra = vec!["ファイルを置き換える".to_string()];
    assert!(label_score("ファイルを置き換える(R)", &extra) > 0);
    assert_eq!(label_score("スキップする", &extra), 0);
}

#[test]
fn cancel_labels_are_recognised() {
    assert!(is_cancel_label("キャンセル"));
    assert!(is_cancel_label("Cancel"));
    assert!(is_cancel_label("&Cancel"));
    assert!(is_cancel_label("Not now"));
    assert!(is_cancel_label("いいえ(&N)"));
    assert!(!is_cancel_label("OK"));
    assert!(!is_cancel_label(""));
}

/// OK and Cancel side by side, the usual button row.
#[test]
fn horizontal_button_row_is_detected() {
    let ok = rect(100, 500, 180, 530);
    let cancel = rect(190, 500, 270, 530);
    assert!(same_button_row(&ok, &cancel, 100));
}

/// Command links stacked one above the other.
#[test]
fn vertical_button_stack_is_detected() {
    let update = rect(100, 300, 400, 340);
    let not_now = rect(100, 360, 400, 400);
    assert!(same_button_row(&update, &not_now, 100));
}

/// Buttons far apart are no row.
#[test]
fn distant_buttons_are_not_a_row() {
    let a = rect(100, 500, 180, 530);
    // 700 px to the right
    let far_right = rect(880, 500, 960, 530);
    assert!(!same_button_row(&a, &far_right, 100));
    // 200 px below
    let far_below = rect(100, 730, 180, 760);
    assert!(!same_button_row(&a, &far_below, 100));
}

/// At a larger display scale the same layout lies further apart in pixels.
#[test]
fn thresholds_follow_the_display_scale() {
    // 400 px apart at 100 %: one row
    let a = rect(100, 500, 180, 530);
    let b = rect(580, 500, 660, 530);
    assert!(same_button_row(&a, &b, 100));

    // at 200 % the same layout is 800 px apart
    let a2 = rect(200, 1000, 360, 1060);
    let b2 = rect(1160, 1000, 1320, 1060);
    assert!(!same_button_row(&a2, &b2, 100), "missed without the scale");
    assert!(same_button_row(&a2, &b2, 200), "one row once the scale is given");
}
