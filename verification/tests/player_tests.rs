use animer::api::{PlaylistItem, Skips, Title};
use animer::player::{
    encode_frame, episode_name, episode_prompt, episode_prompt_text, frame_length, release_heading, frame_text, get_info,
    is_known_quality, parse_episode_request, player_message, prompt_line_allowed, select_episode,
    select_source, skips_string, EpisodeRequest, PromptOutcome, SourceError,
};

fn item(title: &str, name: Option<&str>, sd: Option<&str>, hd: Option<&str>, fullhd: Option<&str>) -> PlaylistItem {
    PlaylistItem {
        name: name.map(|s| s.to_string()),
        title: title.to_string(),
        skips: Skips { ending: vec![], opening: vec![] },
        sd: sd.map(|s| s.to_string()),
        hd: hd.map(|s| s.to_string()),
        fullhd: fullhd.map(|s| s.to_string()),
    }
}

#[test]
fn episode_requests() {
    let r = parse_episode_request("3").unwrap();
    assert_eq!(r.number, 3);
    assert!(r.quality.is_none());
    let r = parse_episode_request("  12   hd  ").unwrap();
    assert_eq!(r.number, 12);
    assert_eq!(r.quality.as_deref(), Some("hd"));
    assert!(parse_episode_request("x hd").is_none());
    assert!(parse_episode_request("-1").is_none());
}

#[test]
fn source_choice() {
    let all = item("t", None, Some("sd.m3u8"), Some("hd.m3u8"), Some("fhd.m3u8"));
    assert_eq!(select_source(&all, None), Ok("fhd.m3u8".to_string()));
    let no_fhd = item("t", None, Some("sd.m3u8"), Some("hd.m3u8"), None);
    assert_eq!(select_source(&no_fhd, None), Ok("hd.m3u8".to_string()));
    let sd_only = item("t", None, Some("sd.m3u8"), None, None);
    assert_eq!(select_source(&sd_only, None), Ok("sd.m3u8".to_string()));
    assert_eq!(select_source(&sd_only, Some("sd")), Ok("sd.m3u8".to_string()));
    assert_eq!(select_source(&sd_only, Some("hd")), Err(SourceError::NoSource));
    assert_eq!(select_source(&sd_only, Some("fullhd")), Err(SourceError::NoSource));
    assert_eq!(select_source(&sd_only, Some("4k")), Err(SourceError::WrongQuality));
}

#[test]
fn episodes_are_numbered_from_the_end() {
    let playlist = vec![
        item("ep3", None, Some("3"), None, None),
        item("ep2", None, Some("2"), None, None),
        item("ep1", None, Some("1"), None, None),
    ];
    let first = EpisodeRequest { number: 1, quality: None };
    assert_eq!(select_episode(&playlist, &first), Ok((2, "1".to_string())));
    let last = EpisodeRequest { number: 3, quality: Some("sd".to_string()) };
    assert_eq!(select_episode(&playlist, &last), Ok((0, "3".to_string())));
    let hd = EpisodeRequest { number: 2, quality: Some("hd".to_string()) };
    assert_eq!(select_episode(&playlist, &hd), Err(SourceError::NoSource));
}

#[test]
fn skips_and_names() {
    let both = Skips { ending: vec![1300, 1390], opening: vec![10, 100] };
    assert_eq!(skips_string(&both), "[10,100,1300,1390]");
    let ending_only = Skips { ending: vec![5, 6], opening: vec![1] };
    assert_eq!(skips_string(&ending_only), "[,5,6]");
    assert_eq!(skips_string(&Skips { ending: vec![], opening: vec![] }), "[]");
    assert_eq!(episode_name(&item("Серия 1", Some("Начало"), None, None, None)), "Серия 1 - Начало");
    assert_eq!(episode_name(&item("Серия 2", None, None, None, None)), "Серия 2 - ");
}

#[test]
fn message_and_frame() {
    let m = player_message("u.m3u8", "[1,2]", "E - N", "T");
    assert_eq!(m, r#"{"source":"u.m3u8","skips":[1,2],"episode_title":"E - N","title":"T"}"#);
    let f = encode_frame(&m);
    assert_eq!(&f[0..4], &(m.len() as u32).to_le_bytes());
    assert_eq!(frame_length(&f[0..4]) as usize, m.len());
    assert_eq!(frame_text(f[4..].to_vec()), Some(m.clone()));
    let u = encode_frame("ё");
    assert_eq!(u, vec![2, 0, 0, 0, 0xd1, 0x91]);
    assert_eq!(frame_text(vec![0xff, 0xfe]), None);
    assert_eq!(frame_length(&[1, 1, 0, 0]), 257);
    get_info();
}

fn release(series: Option<&str>) -> Title {
    Title {
        names: ["Т".to_string(), "T-en".to_string()],
        id: 1,
        playlist: Vec::new(),
        series: series.map(|s| s.to_string()),
    }
}

#[test]
fn prompt_question_and_heading() {
    assert_eq!(episode_prompt_text(&release(Some("1-12"))), "Enter episoed number [1-12]: ");
    assert_eq!(episode_prompt_text(&release(None)), "Enter episoed number []: ");
    assert_eq!(release_heading(&release(None)), "Т");
}

#[test]
fn unknown_quality_is_refused_before_the_lookup() {
    let playlist = vec![item("ep1", None, Some("1"), None, None)];
    let zero = EpisodeRequest { number: 0, quality: Some("4k".to_string()) };
    assert_eq!(select_episode(&playlist, &zero), Err(SourceError::WrongQuality));
    assert!(prompt_line_allowed(&playlist, "0 4k"));
    assert!(matches!(episode_prompt(&release(None), &playlist, "0 4k", false), PromptOutcome::WrongQuality));
    assert!(!prompt_line_allowed(&playlist, "0 hd"));
    assert!(!prompt_line_allowed(&playlist, "0"));
    assert!(!prompt_line_allowed(&playlist, "2"));
    assert!(!prompt_line_allowed(&playlist, "   "));
    assert!(is_known_quality("fullhd") && is_known_quality("hd") && is_known_quality("sd"));
    assert!(!is_known_quality("HD"));
}

#[test]
fn episode_prompt_outcomes() {
    let mut ep2 = item("Серия 2", Some("Финал"), Some("s2"), Some("h2"), None);
    ep2.skips = Skips { ending: vec![1300, 1390], opening: vec![10, 100] };
    let playlist = vec![ep2, item("Серия 1", None, Some("s1"), None, None)];
    assert!(prompt_line_allowed(&playlist, "x"));
    assert!(matches!(episode_prompt(&release(None), &playlist, "x", true), PromptOutcome::WrongNumber));
    assert!(matches!(episode_prompt(&release(None), &playlist, "1 hd", true), PromptOutcome::NoSource));
    match episode_prompt(&release(None), &playlist, "1", false) {
        PromptOutcome::Launch(src) => assert_eq!(src, "s1"),
        _ => panic!("expected a launch"),
    }
    let expected = r#"{"source":"h2","skips":[10,100,1300,1390],"episode_title":"Серия 2 - Финал","title":"Т"}"#;
    match episode_prompt(&release(None), &playlist, " 2 ", true) {
        PromptOutcome::Feed(frame) => {
            assert_eq!(&frame[0..4], &(expected.len() as u32).to_le_bytes());
            assert_eq!(&frame[4..], expected.as_bytes());
        }
        _ => panic!("expected a frame"),
    }
}
