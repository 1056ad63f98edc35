use vocasync::feishu::{truncate_status_title, User, UserList};
use vocasync::user_storefront::{Attributes, Data, UserStorefront};

#[test]
fn ascii_title_is_cut_at_twenty_characters() {
    assert_eq!(truncate_status_title("short"), "short");
    assert_eq!(
        truncate_status_title("abcdefghijklmnopqrstuvwxyz"),
        "abcdefghijklmnopqrst"
    );
}

#[test]
fn wide_characters_count_double() {
    assert_eq!(truncate_status_title("歌歌歌歌歌歌歌歌歌歌歌歌"), "歌歌歌歌歌歌歌歌歌歌");
    assert_eq!(truncate_status_title("ab歌歌歌歌歌歌歌歌歌歌"), "ab歌歌歌歌歌歌歌歌歌");
}

#[test]
fn end_times_are_set_in_seconds() {
    let mut list = UserList {
        user_list: vec![
            User { user_id: "a".to_string(), end_time: 0 },
            User { user_id: "b".to_string(), end_time: 7 },
        ],
    };
    list.set_end_times(5000);
    assert_eq!(list.user_list.len(), 2);
    assert_eq!(list.user_list[0].user_id, "a");
    assert_eq!(list.user_list[0].end_time, 5);
    assert_eq!(list.user_list[1].user_id, "b");
    assert_eq!(list.user_list[1].end_time, 5);
}

#[test]
fn first_storefront_id_is_taken_from_the_data_array() {
    let storefront = UserStorefront {
        data: vec![Data {
            id: "hk".to_string(),
            data_type: "storefronts".to_string(),
            href: String::new(),
            attributes: Attributes {
                supported_language_tags: vec![],
                default_language_tag: String::new(),
                name: String::new(),
                explicit_content_policy: String::new(),
            },
        }],
    };
    assert_eq!(storefront.first_id(), Some(&"hk".to_string()));
    let empty = UserStorefront { data: vec![] };
    assert_eq!(empty.first_id(), None);
}
