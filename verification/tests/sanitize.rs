use orc_core::sanitize::{sanitize_fs_name, sanitize_path_component, split_path_components};

#[test]
fn component_keeps_safe_characters() {
    assert_eq!(sanitize_path_component("My File (1) [x] &#@!%+=._-"), "My File (1) [x] &#@!%+=._-");
    assert_eq!(sanitize_path_component("a/b\\c:d*e?f\"g<h>i|j"), "abcdefghij");
    assert_eq!(sanitize_path_component("  padded  "), "padded");
    assert_eq!(sanitize_path_component("tab\tnew\nline"), "tabnewline");
    assert_eq!(sanitize_path_component(""), "");
    assert_eq!(sanitize_path_component("///"), "");
}

#[test]
fn component_keeps_letters_of_any_script() {
    assert_eq!(sanitize_path_component("caf\u{e9} \u{65e5}\u{672c}\u{8a9e} \u{1f600}"), "caf\u{e9} \u{65e5}\u{672c}\u{8a9e}");
}

#[test]
fn component_is_capped() {
    let long = "x".repeat(300);
    assert_eq!(sanitize_path_component(&long), "x".repeat(255));
    let spaced = format!("{}{}", "y".repeat(254), "    zzz");
    assert_eq!(sanitize_path_component(&spaced), "y".repeat(254));
}

#[test]
fn fs_name_replaces_reserved_characters() {
    assert_eq!(sanitize_fs_name("a/b\\c:d*e?f\"g<h>i|j"), "a_b_c_d_e_f_g_h_i_j");
    assert_eq!(sanitize_fs_name("  name.txt "), "name.txt");
    assert_eq!(sanitize_fs_name("tab\there"), "tab_here");
    assert_eq!(sanitize_fs_name("\u{7f}x\u{85}"), "_x_");
    assert_eq!(sanitize_fs_name("\u{e9}t\u{e9}"), "\u{e9}t\u{e9}");
    assert_eq!(sanitize_fs_name(""), "");
}

#[test]
fn path_is_split_at_both_separators() {
    assert_eq!(
        split_path_components("dir/sub\\file.txt"),
        vec!["dir".to_string(), "sub".to_string(), "file.txt".to_string()]
    );
    assert_eq!(split_path_components("single"), vec!["single".to_string()]);
}

#[test]
fn dot_segments_and_empty_segments_are_dropped() {
    assert_eq!(
        split_path_components("/a//./b/../c/"),
        vec!["a".to_string(), "b".to_string(), "c".to_string()]
    );
    assert_eq!(split_path_components("../../etc/passwd"), vec!["etc".to_string(), "passwd".to_string()]);
    assert_eq!(split_path_components("a/.../b"), vec!["a".to_string(), "...".to_string(), "b".to_string()]);
}

#[test]
fn path_without_components_gets_a_placeholder() {
    assert_eq!(split_path_components(""), vec!["file".to_string()]);
    assert_eq!(split_path_components("/"), vec!["file".to_string()]);
    assert_eq!(split_path_components("./.."), vec!["file".to_string()]);
    assert_eq!(split_path_components("***/???"), vec!["file".to_string()]);
    assert_eq!(split_path_components("  /\t"), vec!["file".to_string()]);
}

#[test]
fn path_depth_is_capped() {
    let deep = vec!["d"; 150].join("/");
    let parts = split_path_components(&deep);
    assert_eq!(parts.len(), 100);
    assert!(parts.iter().all(|p| p == "d"));
}
