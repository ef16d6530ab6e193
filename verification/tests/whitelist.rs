use rhc_bot::clock::now;
use rhc_bot::whitelist::{
    added_text, cleared_text, deleted_text, is_whitelisted, whitelist_add, whitelist_clear,
    whitelist_delete, whitelist_lines, whitelist_list, Whitelist,
};

#[test]
fn manages_whitelist_tg_ids() {
    let mut data = Whitelist::new();
    whitelist_add(&mut data, 123456, now().unwrap());
    whitelist_add(&mut data, 987654, now().unwrap());
    assert!(is_whitelisted(&data, 123456));
    assert_eq!(whitelist_list(&data), vec![123456, 987654]);
    assert_eq!(whitelist_delete(&mut data, 123456), 1);
    assert!(!is_whitelisted(&data, 123456));
    assert_eq!(whitelist_clear(&mut data), 1);
    assert!(whitelist_list(&data).is_empty());
}

#[test]
fn entering_twice_keeps_one_row_with_the_later_time() {
    let mut list = Whitelist::new();
    whitelist_add(&mut list, 5, 100);
    whitelist_add(&mut list, -3, 150);
    whitelist_add(&mut list, 5, 200);
    assert_eq!(list.rows(), &vec![(-3, 150), (5, 200)]);
    assert_eq!(whitelist_list(&list), vec![-3, 5]);
}

#[test]
fn deleting_undoes_adding() {
    let mut list = Whitelist::from_rows(&vec![(7, 1), (2, 1)]);
    let before = list.rows().clone();
    whitelist_add(&mut list, 4, 9);
    assert_eq!(whitelist_delete(&mut list, 4), 1);
    assert_eq!(list.rows(), &before);
    assert_eq!(whitelist_delete(&mut list, 4), 0);
    assert_eq!(list.rows(), &before);
}

#[test]
fn others_stay_on_the_list() {
    let mut list = Whitelist::from_rows(&vec![(1, 0), (2, 0), (3, 0)]);
    assert_eq!(whitelist_delete(&mut list, 2), 1);
    assert!(is_whitelisted(&list, 1) && is_whitelisted(&list, 3));
    assert!(!is_whitelisted(&list, 2));
    assert_eq!(whitelist_clear(&mut list), 2);
    assert_eq!(whitelist_clear(&mut list), 0);
}

#[test]
fn what_is_said_of_the_list() {
    assert_eq!(whitelist_lines(&vec![]), vec!["白名单为空".to_owned()]);
    assert_eq!(whitelist_lines(&vec![-1, 20]), vec!["-1".to_owned(), "20".to_owned()]);
    assert_eq!(added_text(123456), "已添加白名单 TG ID: 123456");
    assert_eq!(deleted_text(0, 5), "白名单中没有 TG ID: 5");
    assert_eq!(deleted_text(1, 5), "已删除白名单 TG ID: 5");
    assert_eq!(cleared_text(12), "已删除全部白名单 TG ID，共 12 个");
}
