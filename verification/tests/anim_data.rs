use poclimon::anim_data::parse_anim_data;

/// Sample AnimData.xml content for testing.
const SAMPLE_XML: &str = r#"<?xml version="1.0" ?>
<AnimData>
    <ShadowSize>1</ShadowSize>
    <Anims>
        <Anim>
            <Name>Idle</Name>
            <Index>7</Index>
            <FrameWidth>40</FrameWidth>
            <FrameHeight>56</FrameHeight>
            <Durations>
                <Duration>40</Duration>
                <Duration>2</Duration>
                <Duration>3</Duration>
            </Durations>
        </Anim>
        <Anim>
            <Name>Sleep</Name>
            <Index>5</Index>
            <FrameWidth>32</FrameWidth>
            <FrameHeight>40</FrameHeight>
            <Durations>
                <Duration>30</Duration>
                <Duration>35</Duration>
            </Durations>
        </Anim>
        <Anim>
            <Name>Eat</Name>
            <Index>15</Index>
            <FrameWidth>24</FrameWidth>
            <FrameHeight>48</FrameHeight>
            <Durations>
                <Duration>6</Duration>
                <Duration>8</Duration>
                <Duration>6</Duration>
                <Duration>8</Duration>
            </Durations>
        </Anim>
    </Anims>
</AnimData>"#;

#[test]
fn test_parse_finds_all_animations() {
    let anims = parse_anim_data(SAMPLE_XML);
    assert_eq!(anims.len(), 3);
    assert!(anims.contains_key("Idle"));
    assert!(anims.contains_key("Sleep"));
    assert!(anims.contains_key("Eat"));
}

#[test]
fn test_parse_idle_details() {
    let anims = parse_anim_data(SAMPLE_XML);
    let idle = anims.get("Idle").unwrap();
    assert_eq!(idle.frame_width, 40);
    assert_eq!(idle.frame_height, 56);
    assert_eq!(idle.durations, vec![40, 2, 3]);
    assert_eq!(idle.frame_count(), 3);
}

#[test]
fn test_parse_sleep_details() {
    let anims = parse_anim_data(SAMPLE_XML);
    let sleep = anims.get("Sleep").unwrap();
    assert_eq!(sleep.frame_width, 32);
    assert_eq!(sleep.frame_height, 40);
    assert_eq!(sleep.durations, vec![30, 35]);
}

#[test]
fn test_parse_eat_details() {
    let anims = parse_anim_data(SAMPLE_XML);
    let eat = anims.get("Eat").unwrap();
    assert_eq!(eat.frame_width, 24);
    assert_eq!(eat.frame_height, 48);
    assert_eq!(eat.durations, vec![6, 8, 6, 8]);
    assert_eq!(eat.frame_count(), 4);
}

#[test]
fn test_total_duration_ms() {
    let anims = parse_anim_data(SAMPLE_XML);
    let idle = anims.get("Idle").unwrap();
    // (40 + 2 + 3) * 50 = 2250ms
    assert_eq!(idle.total_duration_ms(), 2250);
}

#[test]
fn test_empty_xml() {
    let anims = parse_anim_data("");
    assert!(anims.is_empty());
}

#[test]
fn test_malformed_xml_skipped() {
    let xml = r#"<Anim><Name>Bad</Name></Anim>"#;
    let anims = parse_anim_data(xml);
    // Missing FrameWidth/FrameHeight/Durations, should be skipped
    assert!(anims.is_empty());
}

#[test]
fn later_block_of_same_name_wins() {
    let xml = "<Anim><Name>Idle</Name><FrameWidth>1</FrameWidth><FrameHeight>2</FrameHeight>\
               <Duration>3</Duration></Anim>\
               <Anim><Name>Idle</Name><FrameWidth>4</FrameWidth><FrameHeight>5</FrameHeight>\
               <Duration>6</Duration><Duration>7</Duration></Anim>";
    let anims = parse_anim_data(xml);
    assert_eq!(anims.len(), 1);
    let idle = anims.get("Idle").unwrap();
    assert_eq!(idle.frame_width, 4);
    assert_eq!(idle.frame_height, 5);
    assert_eq!(idle.durations, vec![6, 7]);
}

#[test]
fn tag_values_are_trimmed_and_bad_durations_skipped() {
    let xml = "<Anim><Name>  Walk \n</Name><FrameWidth> 16 </FrameWidth><FrameHeight>\t8</FrameHeight>\
               <Duration> 4 </Duration><Duration>x</Duration><Duration>5</Duration></Anim>";
    let anims = parse_anim_data(xml);
    let walk = anims.get("Walk").unwrap();
    assert_eq!(walk.frame_width, 16);
    assert_eq!(walk.frame_height, 8);
    assert_eq!(walk.durations, vec![4, 5]);
    assert!(anims.get("Run").is_none());
}

#[test]
fn non_numeric_frame_size_skips_block() {
    let xml = "<Anim><Name>Idle</Name><FrameWidth>wide</FrameWidth><FrameHeight>2</FrameHeight>\
               <Duration>3</Duration></Anim>";
    assert!(parse_anim_data(xml).is_empty());
}
