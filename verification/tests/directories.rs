use bridge_app::directories::{Confirmations, Creation, DirectoryView};
use bridge_app::model::Directory;

const SECOND: u64 = 1_000_000_000;

fn dir(path: &str) -> Directory {
    Directory { text: path.to_string(), path: path.to_string() }
}

fn creation(deadline: u64) -> Creation {
    Creation {
        user: "owner".into(),
        chat: "chat".into(),
        current: dir("/root"),
        input: "new".into(),
        target: dir("/root/new"),
        deadline,
    }
}

#[test]
fn confirmation_requires_owner_chat_directory_and_unexpired_token() {
    let now = 5 * SECOND;
    let mut pending = Confirmations::default();
    let entry = creation(now + 600 * SECOND);
    assert!(pending.insert("token".into(), entry.clone()));
    for (user, chat, path) in [
        ("other", "chat", "/root"),
        ("owner", "elsewhere", "/root"),
        ("owner", "chat", "/other"),
    ] {
        assert!(pending.get("token", user, chat, &dir(path), now).is_none());
    }
    assert!(pending.get("token", "owner", "chat", &dir("/root"), now).is_some());
    assert!(pending.get("token", "owner", "chat", &dir("/root"), entry.deadline).is_none());
    assert_eq!(pending.expire(entry.deadline).len(), 1);
    assert!(pending.expire(entry.deadline).is_empty());
    assert!(pending.insert("next".into(), entry));
    pending.invalidate("owner");
    assert!(pending.get("next", "owner", "chat", &dir("/root"), now).is_none());
}

#[test]
fn paths_compare_by_components_and_stay_inside_their_root() {
    assert!(dir("/root/a/b").starts_with(&dir("/root/a")));
    assert!(dir("/root/a").starts_with(&dir("/root/a")));
    assert!(!dir("/root/ab").starts_with(&dir("/root/a")));
    assert!(dir("/root").starts_with(&dir("/")));
    assert!(dir("/root").is_absolute());
    assert!(!dir("root").is_absolute());
    assert!(dir("/root/../etc").has_parent_component());
    assert!(!dir("/root/..etc").has_parent_component());
}

#[test]
fn directory_listings_name_each_child_as_a_command() {
    let view = DirectoryView { path: dir("/root"), children: vec!["a".into(), "b c".into()] };
    assert!(view.text().starts_with("当前目录：/root\n子目录（最多 20 项）：\n/cd a\n/cd b c\n\n/cd <路径>"));
}
