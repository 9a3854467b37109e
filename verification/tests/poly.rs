use sysmon::poly::{build_events_url, first_string, parse_yes_token_id, yes_price_text, SortOrder, Topic};

#[test]
fn test_build_events_url_all_volume24h() {
    let url = build_events_url(Topic::All, SortOrder::Volume24h);
    assert!(url.contains("order=volume24hr"));
    assert!(!url.contains("tag_slug"));
}

#[test]
fn test_build_events_url_sports_liquidity() {
    let url = build_events_url(Topic::Sports, SortOrder::Liquidity);
    assert!(url.contains("order=liquidityClob"));
    assert!(url.contains("tag_slug=sports"));
}

#[test]
fn test_build_events_url_crypto_newest() {
    let url = build_events_url(Topic::Crypto, SortOrder::Newest);
    assert!(url.contains("order=startDate"));
    assert!(url.contains("tag_slug=crypto"));
}

#[test]
fn test_topic_next_cycles() {
    let mut topic = Topic::All;
    for _ in 0..Topic::ALL.len() {
        topic = topic.next();
    }
    assert_eq!(topic, Topic::All);
}

#[test]
fn test_topic_prev_cycles() {
    let mut topic = Topic::All;
    topic = topic.prev();
    assert_eq!(topic, *Topic::ALL.last().unwrap());
    for _ in 0..Topic::ALL.len() - 1 {
        topic = topic.prev();
    }
    assert_eq!(topic, Topic::All);
}

#[test]
fn test_sort_order_next_cycles() {
    let mut sort = SortOrder::Volume24h;
    for _ in 0..SortOrder::ALL.len() {
        sort = sort.next();
    }
    assert_eq!(sort, SortOrder::Volume24h);
}

#[test]
fn test_topic_labels_not_empty() {
    for topic in Topic::ALL {
        assert!(!topic.label().is_empty());
    }
}

#[test]
fn test_sort_order_labels_not_empty() {
    for sort in SortOrder::ALL {
        assert!(!sort.label().is_empty());
    }
}


#[test]
fn test_parse_yes_token_id_normal() {
    let result = parse_yes_token_id(r#"["token_yes","token_no"]"#);
    assert_eq!(result.unwrap(), "token_yes");
}

#[test]
fn test_parse_yes_token_id_empty() {
    assert!(parse_yes_token_id("").is_none());
}

#[test]
fn test_parse_yes_token_id_empty_array() {
    assert!(parse_yes_token_id("[]").is_none());
}

#[test]
fn yes_price_text_takes_the_first_outcome() {
    assert_eq!(yes_price_text(r#"["0.55","0.45"]"#).as_deref(), Some("0.55"));
    assert_eq!(yes_price_text(r#" [ "0.92" , "0.08" ] "#).as_deref(), Some("0.92"));
    assert!(yes_price_text("").is_none());
    assert!(yes_price_text("[]").is_none());
    assert!(yes_price_text("not json").is_none());
    assert!(yes_price_text("[0.5]").is_none());
}

#[test]
fn first_string_takes_the_head_of_a_list() {
    assert_eq!(first_string(Some(vec!["a".to_string(), "b".to_string()])).as_deref(), Some("a"));
    assert!(first_string(Some(Vec::new())).is_none());
    assert!(first_string(None).is_none());
}
