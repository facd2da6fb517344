use bulls_n_cows::story::clean_story;
use bulls_n_cows::wishes::store_key_of_path;

#[test]
fn cleanup() {
    let text = "<INST>\nPlease write a story that tree.\n</INST>\n<INST>\nPlease include reader.\n</INST>\n\nHere's the story:\n\nIt was Christmas Eve at the North ... vowing to never cause trouble again.";
    let result = clean_story(text);
    assert_eq!(
        result,
        "\n\nHere's the story:\n\nIt was Christmas Eve at the North ... vowing to never cause trouble again."
    );
}

#[test]
fn story_without_tag_is_unchanged() {
    assert_eq!(clean_story("a plain story"), "a plain story");
    assert_eq!(clean_story(""), "");
}

#[test]
fn tag_at_the_very_end_leaves_nothing() {
    assert_eq!(clean_story("all instructions</INST>"), "");
}

#[test]
fn store_key_is_the_part_after_the_question_mark() {
    assert_eq!(store_key_of_path("/data?alice"), Some("alice".to_string()));
    assert_eq!(store_key_of_path("/data"), None);
    assert_eq!(store_key_of_path("/d?a?b"), None);
    assert_eq!(store_key_of_path("/data?"), Some("".to_string()));
}
