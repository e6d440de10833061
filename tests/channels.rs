use discord_lite::api::{Channel, CATEGORY_CHANNEL, TEXT_CHANNEL, VOICE_CHANNEL};
use discord_lite::hierarchy::{build_hierarchy, normalize_channels, ChannelRow};

fn channel(id: &str, kind: i32, position: i32, parent: Option<&str>) -> Channel {
    Channel {
        id: id.to_string(),
        channel_type: kind,
        name: Some(id.to_string()),
        position,
        parent_id: parent.map(|p| p.to_string()),
    }
}

#[test]
fn hierarchy_top_level_then_category_children_by_position() {
    let cs = vec![
        channel("general", TEXT_CHANNEL, 1, None),
        channel("cat1", CATEGORY_CHANNEL, 0, None),
        channel("chat", TEXT_CHANNEL, 5, Some("cat1")),
        channel("voice", VOICE_CHANNEL, 2, Some("cat1")),
    ];
    assert_eq!(
        build_hierarchy(&cs),
        vec![
            ChannelRow::TopLevel(0),
            ChannelRow::Category(1),
            ChannelRow::Nested(3),
            ChannelRow::Nested(2),
        ]
    );
}

#[test]
fn orphan_channel_is_omitted() {
    let cs = vec![
        channel("cat1", CATEGORY_CHANNEL, 0, None),
        channel("lost", TEXT_CHANNEL, 1, Some("nowhere")),
        channel("kept", TEXT_CHANNEL, 2, Some("cat1")),
    ];
    assert_eq!(build_hierarchy(&cs), vec![ChannelRow::Category(0), ChannelRow::Nested(2)]);
}

#[test]
fn children_with_equal_positions_keep_list_order() {
    let cs = vec![
        channel("c", CATEGORY_CHANNEL, 0, None),
        channel("x", TEXT_CHANNEL, 3, Some("c")),
        channel("y", VOICE_CHANNEL, 3, Some("c")),
        channel("z", TEXT_CHANNEL, 1, Some("c")),
    ];
    assert_eq!(
        build_hierarchy(&cs),
        vec![
            ChannelRow::Category(0),
            ChannelRow::Nested(3),
            ChannelRow::Nested(1),
            ChannelRow::Nested(2),
        ]
    );
}

#[test]
fn categories_in_list_order_and_empty_list() {
    let cs = vec![
        channel("b", CATEGORY_CHANNEL, 5, None),
        channel("a", CATEGORY_CHANNEL, 1, None),
        channel("in_a", TEXT_CHANNEL, 0, Some("a")),
        channel("other", 13, 0, None),
    ];
    assert_eq!(
        build_hierarchy(&cs),
        vec![ChannelRow::Category(0), ChannelRow::Category(1), ChannelRow::Nested(2)]
    );
    assert_eq!(build_hierarchy(&Vec::new()), vec![]);
}

#[test]
fn normalize_filters_kinds_and_sorts_stably() {
    let cs = vec![
        channel("t2", TEXT_CHANNEL, 2, None),
        channel("forum", 15, 0, None),
        channel("v1", VOICE_CHANNEL, 1, None),
        channel("cat", CATEGORY_CHANNEL, 1, None),
        channel("t0", TEXT_CHANNEL, 0, None),
        channel("stage", 13, -1, None),
    ];
    let ids: Vec<String> = normalize_channels(cs).into_iter().map(|c| c.id).collect();
    assert_eq!(ids, vec!["t0", "v1", "cat", "t2"]);
}
