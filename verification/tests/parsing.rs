use amt_social::parsing::{check_content, extract_hashtags, extract_mentions, try_extract_tags};

#[test]
fn hashtags_are_lowercased_and_trimmed() {
    assert_eq!(extract_hashtags("Hello #Rust and #Verus!"), vec!["rust", "verus"]);
}

#[test]
fn mentions_are_lowercased_and_trimmed() {
    assert_eq!(extract_mentions("hi @Steve, and @alex_1."), vec!["steve", "alex_1"]);
}

#[test]
fn hashtags_ignore_mentions_and_the_reverse() {
    let content = "#news from @Notch";
    assert_eq!(extract_hashtags(content), vec!["news"]);
    assert_eq!(extract_mentions(content), vec!["notch"]);
}

#[test]
fn a_lone_sigil_is_no_tag() {
    assert_eq!(extract_hashtags("# alone"), Vec::<String>::new());
    assert_eq!(extract_mentions("@ alone"), Vec::<String>::new());
}

#[test]
fn a_sigil_inside_a_word_is_no_tag() {
    assert_eq!(extract_mentions("mail me at steve@example.com"), Vec::<String>::new());
    assert_eq!(extract_hashtags("C# is fine"), Vec::<String>::new());
}

#[test]
fn only_trailing_punctuation_is_trimmed() {
    assert_eq!(extract_hashtags("#ta.g."), vec!["ta.g"]);
    assert_eq!(extract_hashtags("#a#"), vec!["a"]);
    assert_eq!(extract_hashtags("#snake_case_"), vec!["snake_case_"]);
}

#[test]
fn the_sigil_is_dropped_once() {
    assert_eq!(extract_mentions("@@Herobrine"), vec!["@herobrine"]);
    assert_eq!(extract_hashtags("##Tag"), vec!["#tag"]);
}

#[test]
fn words_split_at_any_whitespace() {
    assert_eq!(extract_hashtags("#a\t#b\n#c\u{3000}#d  #e"), vec!["a", "b", "c", "d", "e"]);
}

#[test]
fn unicode_letters_are_kept_and_lowercased() {
    assert_eq!(extract_hashtags("#ÜBER #Größe"), vec!["über", "größe"]);
    // Lower-casing works on the whole string, not character by character.
    assert_eq!(extract_hashtags("#İ"), vec!["i\u{307}"]);
    assert_eq!(extract_hashtags("#\u{39f}\u{394}\u{39f}\u{3a3}"), vec!["\u{3bf}\u{3b4}\u{3bf}\u{3c2}"]);
}

#[test]
fn digits_count_as_tag_characters() {
    assert_eq!(extract_hashtags("#2024!"), vec!["2024"]);
    assert_eq!(extract_hashtags("#١٢٣"), vec!["١٢٣"]);
}

#[test]
fn tags_keep_their_order_and_repeats() {
    assert_eq!(extract_hashtags("#b #a #b"), vec!["b", "a", "b"]);
}

#[test]
fn a_tag_word_that_trims_to_nothing_cannot_be_extracted() {
    assert_eq!(try_extract_tags("nice #!", '#'), None);
    assert_eq!(try_extract_tags("#🙂", '#'), None);
    assert_eq!(try_extract_tags("hey @... there", '@'), None);
    assert!(!check_content("nice #!"));
    assert!(!check_content("hey @..."));
    assert!(check_content("nice # ! @ ."));
}

#[test]
fn extraction_succeeds_on_ordinary_text() {
    assert_eq!(try_extract_tags("no tags here", '#'), Some(vec![]));
    assert_eq!(try_extract_tags("", '@'), Some(vec![]));
    assert!(check_content(""));
}

#[test]
fn tags_of_joined_texts_are_the_tags_of_each() {
    let a = "#One two @x";
    let b = "#Three!";
    let joined = format!("{a} {b}");
    let mut expected = try_extract_tags(a, '#').unwrap();
    expected.extend(try_extract_tags(b, '#').unwrap());
    assert_eq!(try_extract_tags(&joined, '#').unwrap(), expected);
    assert_eq!(try_extract_tags("#ok #!", '#'), None);
}

#[test]
fn extracted_tags_are_never_empty() {
    for t in extract_hashtags("#a # #_ #x. #Y") {
        assert!(!t.is_empty());
    }
}

#[test]
fn only_words_starting_with_the_sigil_matter() {
    let content = "Loving #Rust, see @Alex and a#b or #C++ ok";
    let kept: Vec<&str> = content.split_whitespace().filter(|w| w.starts_with('#')).collect();
    assert_eq!(extract_hashtags(&kept.join(" ")), extract_hashtags(content));
    assert_eq!(extract_hashtags(content), vec!["rust", "c"]);
}

#[test]
fn mentions_read_like_hashtags() {
    let content = "hey @Steve, #news @Alex_2! and @... no";
    let content = content.replace("@...", "@x.");
    let as_tags: Vec<String> = content
        .split_whitespace()
        .filter(|w| w.starts_with('@'))
        .map(|w| format!("#{}", &w[1..]))
        .collect();
    assert_eq!(extract_mentions(&content), extract_hashtags(&as_tags.join(" ")));
    assert_eq!(extract_mentions(&content), vec!["steve", "alex_2", "x"]);
}

#[test]
fn hashtags_written_back_read_back_the_same() {
    let content = "#Mine #craft_ #A.b. #2x # #__ plain @x";
    assert!(check_content(content));
    let tags = extract_hashtags(content);
    assert_eq!(tags, vec!["mine", "craft_", "a.b", "2x", "__"]);
    let written: Vec<String> = tags.iter().map(|t| format!("#{t}")).collect();
    assert_eq!(extract_hashtags(&written.join(" ")), tags);
}

#[test]
fn a_space_separates_words() {
    let a = "#one @two";
    let b = "#three";
    let mut expected = extract_hashtags(a);
    expected.extend(extract_hashtags(b));
    assert_eq!(extract_hashtags(&format!("{a} {b}")), expected);
    let mut expected = extract_mentions(a);
    expected.extend(extract_mentions(b));
    assert_eq!(extract_mentions(&format!("{a} {b}")), expected);
}
