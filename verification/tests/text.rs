use six_degrees::{
    capitalize_first, get_links_from_body, join_links, normalize_title, split_links, str_chars,
    to_titlecase, trim_chars, NormalizeStrategy,
};

#[test]
fn titlecase_capitalizes_word_initials() {
    assert_eq!(to_titlecase(&"hello world".to_string()), "hello World");
}

#[test]
fn titlecase_keeps_first_character() {
    assert_eq!(to_titlecase(&"paul singer (businessman)".to_string()), "paul Singer (businessman)");
}

#[test]
fn titlecase_handles_consecutive_spaces() {
    assert_eq!(to_titlecase(&"a  b".to_string()), "a  B");
}

#[test]
fn titlecase_of_empty_is_empty() {
    assert_eq!(to_titlecase(&String::new()), "");
}

#[test]
fn capitalize_first_only_touches_the_head() {
    assert_eq!(capitalize_first(&"hello world".to_string()), "Hello world");
    assert_eq!(capitalize_first(&String::new()), "");
}

#[test]
fn normalize_selects_the_strategy() {
    assert_eq!(normalize_title(NormalizeStrategy::TitleCase, &"a b".to_string()), "a B");
    assert_eq!(normalize_title(NormalizeStrategy::FirstOnly, &"a b".to_string()), "A b");
}

#[test]
fn split_on_delimiter() {
    let parts = split_links(&"Alpha<|>Beta<|>Gamma".to_string());
    assert_eq!(parts, vec!["Alpha".to_string(), "Beta".to_string(), "Gamma".to_string()]);
}

#[test]
fn split_of_empty_payload_is_one_empty_piece() {
    assert_eq!(split_links(&String::new()), vec![String::new()]);
}

#[test]
fn join_then_split_round_trip() {
    let links = vec!["A".to_string(), "B (c)".to_string(), "D".to_string()];
    let joined = join_links(&links);
    assert_eq!(joined, "A<|>B (c)<|>D");
    assert_eq!(split_links(&joined), links);
}

#[test]
fn trim_removes_both_ends() {
    let v = str_chars("  spaced out \t ");
    assert_eq!(trim_chars(&v), str_chars("spaced out"));
}

#[test]
fn str_chars_decodes_multibyte_text() {
    assert_eq!(str_chars("naïve ☃"), vec!['n', 'a', 'ï', 'v', 'e', ' ', '☃']);
}

#[test]
fn body_with_redirect_marker_yields_redirect() {
    let r = get_links_from_body("#REDIRECT [[Target page]] rest".to_string(), &"T".to_string());
    assert_eq!(r, Ok(("Target page".to_string(), true)));
}

#[test]
fn redirect_target_is_cut_at_its_anchor() {
    let r = get_links_from_body("#REDIRECT [[Target#Section]]".to_string(), &"T".to_string());
    assert_eq!(r, Ok(("Target".to_string(), true)));
}

#[test]
fn redirect_target_is_trimmed() {
    let r = get_links_from_body("#REDIRECT [[  Target ]]".to_string(), &"T".to_string());
    assert_eq!(r, Ok(("Target".to_string(), true)));
}

#[test]
fn redirect_into_filtered_namespace_is_emptied() {
    let r = get_links_from_body("#REDIRECT [[Wikipedia:Something]]".to_string(), &"T".to_string());
    assert_eq!(r, Ok((String::new(), true)));
}

#[test]
fn unclosed_redirect_marker_is_an_error() {
    let r = get_links_from_body("#REDIRECT [[Target".to_string(), &"T".to_string());
    assert_eq!(r, Err("Getting redirect link from 'T' failed".to_string()));
}

#[test]
fn links_are_collected_in_order() {
    let body = "x [[Alpha]] y [[Beta|label]] z [[Gamma]]".to_string();
    let r = get_links_from_body(body, &"T".to_string());
    assert_eq!(r, Ok(("Alpha<|>Beta<|>Gamma".to_string(), false)));
}

#[test]
fn filtered_and_anchor_links_are_skipped() {
    let body = "[[File:Pic.png]] [[#self]] [[Real page#part]]".to_string();
    let r = get_links_from_body(body, &"T".to_string());
    assert_eq!(r, Ok(("Real page".to_string(), false)));
}

#[test]
fn link_titles_are_trimmed() {
    let body = "[[ Spaced title ]]".to_string();
    let r = get_links_from_body(body, &"T".to_string());
    assert_eq!(r, Ok(("Spaced title".to_string(), false)));
}

#[test]
fn scan_stops_at_see_also() {
    let body = "[[Kept]] ==See also== [[Dropped]]".to_string();
    let r = get_links_from_body(body, &"T".to_string());
    assert_eq!(r, Ok(("Kept".to_string(), false)));
}

#[test]
fn scan_stops_at_references_when_no_see_also() {
    let body = "[[Kept]] ==References== [[Dropped]]".to_string();
    let r = get_links_from_body(body, &"T".to_string());
    assert_eq!(r, Ok(("Kept".to_string(), false)));
}

#[test]
fn unterminated_link_ends_the_scan() {
    let body = "[[Kept]] [[broken".to_string();
    let r = get_links_from_body(body, &"T".to_string());
    assert_eq!(r, Ok(("Kept".to_string(), false)));
}

#[test]
fn body_without_links_yields_empty_payload() {
    let r = get_links_from_body("plain prose only".to_string(), &"T".to_string());
    assert_eq!(r, Ok((String::new(), false)));
}
