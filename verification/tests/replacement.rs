use capslock_forge::config::replace_text_config;
use capslock_forge::replace::ReplacementMap;

fn get(map: &ReplacementMap, k: &str) -> Option<String> {
    map.get(k).map(|s| s.clone())
}

#[test]
fn rotation_group_cycles_back_to_the_first_element() {
    let (map, diags) = replace_text_config("[Multifunctional]\na=[x,y,z]\n").unwrap();
    assert_eq!(get(&map, "a"), Some("x".to_string()));
    assert_eq!(get(&map, "x"), Some("y".to_string()));
    assert_eq!(get(&map, "y"), Some("z".to_string()));
    assert_eq!(get(&map, "z"), Some("x".to_string()));
    assert_eq!(get(&map, "b"), None);
    assert!(diags.is_empty());
}

#[test]
fn rotation_elements_are_trimmed() {
    let (map, _) = replace_text_config("[Multifunctional]\na=[ x , y ]\n").unwrap();
    assert_eq!(get(&map, "a"), Some("x".to_string()));
    assert_eq!(get(&map, "x"), Some("y".to_string()));
    assert_eq!(get(&map, "y"), Some("x".to_string()));
}

#[test]
fn plain_pair_yields_exactly_one_mapping() {
    let (map, diags) = replace_text_config("[Multifunctional]\na=b\n").unwrap();
    assert_eq!(map.len(), 1);
    assert_eq!(get(&map, "a"), Some("b".to_string()));
    assert_eq!(get(&map, "b"), None);
    assert!(diags.is_empty());
}

#[test]
fn single_element_list_is_kept_verbatim() {
    let (map, _) = replace_text_config("[Multifunctional]\na=[x]\n").unwrap();
    assert_eq!(map.len(), 1);
    assert_eq!(get(&map, "a"), Some("[x]".to_string()));
}

#[test]
fn a_collision_overwrites_and_is_reported() {
    let (map, diags) = replace_text_config("[Multifunctional]\na=[x,y]\nx=q\n").unwrap();
    assert_eq!(get(&map, "a"), Some("x".to_string()));
    assert_eq!(get(&map, "x"), Some("q".to_string()));
    assert_eq!(get(&map, "y"), Some("x".to_string()));
    assert_eq!(diags, vec!["y".to_string()]);
}

#[test]
fn only_the_designated_section_is_consulted() {
    let text = "[Other]\nfoo=bar\n[Multifunctional]\na=b\n[Another]\nbaz=qux\n";
    let (map, _) = replace_text_config(text).unwrap();
    assert_eq!(map.len(), 1);
    assert_eq!(get(&map, "a"), Some("b".to_string()));
    assert_eq!(get(&map, "foo"), None);
    assert_eq!(get(&map, "baz"), None);
}

#[test]
fn a_document_without_the_section_yields_an_empty_map() {
    let (map, diags) = replace_text_config("[Other]\nfoo=bar\n").unwrap();
    assert_eq!(map.len(), 0);
    assert!(diags.is_empty());
}

#[test]
fn the_default_replacement_document_loads() {
    let (map, diags) =
        replace_text_config(capslock_forge::defaults::default_replace_text_text()).unwrap();
    assert_eq!(get(&map, "color"), Some("colour".to_string()));
    assert!(diags.is_empty());
}

#[test]
fn non_ascii_triggers_and_replacements_work() {
    let (map, _) = replace_text_config(
        "[Multifunctional]\n\u{989c}\u{8272}=[\u{7ea2},\u{7eff}]\n",
    )
    .unwrap();
    assert_eq!(get(&map, "\u{989c}\u{8272}"), Some("\u{7ea2}".to_string()));
    assert_eq!(get(&map, "\u{7ea2}"), Some("\u{7eff}".to_string()));
    assert_eq!(get(&map, "\u{7eff}"), Some("\u{7ea2}".to_string()));
}
