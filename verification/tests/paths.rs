use linux_post_install::bundle::ExtractedBundle;
use linux_post_install::paths::{expand_home, join_path, render_template};

#[test]
fn paths_join_like_path_join() {
    assert_eq!(join_path("a", "b"), "a/b");
    assert_eq!(join_path("a/", "b"), "a/b");
    assert_eq!(join_path("", "b"), "b");
    assert_eq!(join_path("a", "/etc/x"), "/etc/x");
    assert_eq!(join_path("a", ""), "a/");
    assert_eq!(join_path(".", "dotfiles/hypr"), "./dotfiles/hypr");
}

#[test]
fn home_is_expanded() {
    assert_eq!(expand_home("~/.config/x", Some("/home/u")), Ok("/home/u/.config/x".to_string()));
    assert_eq!(expand_home("~", Some("/home/u")), Ok("/home/u/~".to_string()));
    assert_eq!(expand_home("~/~/x", Some("/home/u")), Ok("/home/u/x".to_string()));
    assert_eq!(expand_home("~//etc", Some("/home/u")), Ok("/etc".to_string()));
    assert_eq!(expand_home("~/", Some("/home/u/")), Ok("/home/u/".to_string()));
}

#[test]
fn other_paths_are_kept() {
    assert_eq!(expand_home("/etc/x", None), Ok("/etc/x".to_string()));
    assert_eq!(expand_home("~user/x", None), Ok("~user/x".to_string()));
    assert_eq!(expand_home("rel/x", Some("/home/u")), Ok("rel/x".to_string()));
}

#[test]
fn missing_home_is_an_error() {
    assert_eq!(expand_home("~/x", None), Err("HOME is not set".to_string()));
    assert_eq!(expand_home("~", None), Err("HOME is not set".to_string()));
}

#[test]
fn templates_get_the_home_directory() {
    assert_eq!(
        render_template("wallpaper={{HOME}}/w.jpg\nother={{HOME}}", "/home/u"),
        "wallpaper=/home/u/w.jpg\nother=/home/u"
    );
    assert_eq!(render_template("no marker {{HOM}}", "/h"), "no marker {{HOM}}");
    assert_eq!(render_template("{{{{HOME}}}}", "h"), "{{h}}");
    assert_eq!(render_template("", "h"), "");
}

#[test]
fn bundle_manifest_is_under_its_root() {
    let b = ExtractedBundle::at("/tmp/linux-post-install-1-2".into());
    assert_eq!(b.manifest_path(), "/tmp/linux-post-install-1-2/replica.toml");
    assert_eq!(b.root(), "/tmp/linux-post-install-1-2");
}
