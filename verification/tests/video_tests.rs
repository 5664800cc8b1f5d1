use canvas::resources::PanoptoSubfolder;
use canvas::video::{
    choose_master_variant, first_media_segment, master_playlist_url, media_file_url,
    plan_video_folder_page, session_file_name, session_timestamp, session_token_url,
    variant_index_url,
};

const MASTER: &str = "#EXTM3U\n\
#EXT-X-STREAM-INF:BANDWIDTH=1280000\n\
low/index.m3u8\n\
#EXT-X-STREAM-INF:BANDWIDTH=2560000\n\
high/index.m3u8\n\
#EXT-X-STREAM-INF:BANDWIDTH=640000\n\
tiny/index.m3u8\n";

const MEDIA: &str = "#EXTM3U\n\
#EXT-X-VERSION:3\n\
#EXT-X-TARGETDURATION:10\n\
#EXT-X-MEDIA-SEQUENCE:0\n\
#EXTINF:9.0,\n\
seg0.ts\n\
#EXTINF:9.0,\n\
seg1.ts\n\
#EXT-X-ENDLIST\n";

#[test]
fn video_highest_bandwidth_variant_wins() {
    let v = choose_master_variant(MASTER).expect("master should parse");
    assert_eq!(v.bandwidth, 2560000);
    assert_eq!(v.uri, "high/index.m3u8");
}

#[test]
fn video_master_has_no_media_segment() {
    assert!(first_media_segment(MASTER).is_none());
    assert!(choose_master_variant(MEDIA).is_none());
}

#[test]
fn video_first_segment_of_a_media_playlist() {
    assert_eq!(first_media_segment(MEDIA), Some("seg0.ts".to_string()));
}

#[test]
fn video_stream_urls_are_assembled_exactly() {
    assert_eq!(
        master_playlist_url("cdn.example.com", "S1", "D1", "V1"),
        "https://cdn.example.com/sessions/S1/D1-V1.hls/master.m3u8"
    );
    assert_eq!(
        variant_index_url("cdn.example.com", "S1", "D1", "V1", "high/index.m3u8"),
        "https://cdn.example.com/sessions/S1/D1-V1.hls/high/index.m3u8"
    );
    assert_eq!(
        media_file_url("cdn.example.com", "S1", "D1", "V1", "high", "seg0.mp4"),
        "https://cdn.example.com/sessions/S1/D1-V1.hls/high/seg0.mp4"
    );
}

#[test]
fn video_session_token_url_names_the_course() {
    assert_eq!(
        session_token_url("https://canvas.example.com", 128),
        "https://canvas.example.com/login/session_token?return_to=https://canvas.example.com/courses/128/external_tools/128"
    );
}

#[test]
fn video_download_names_use_the_extension_when_present() {
    assert_eq!(session_file_name("Lecture 1", "mp4"), "Lecture 1.mp4");
    assert_eq!(session_file_name("Lecture 1", ""), "Lecture 1");
}

#[test]
fn video_session_timestamp_renders_the_start_time() {
    let t = session_timestamp("/Date(1633072800000)/").expect("in-range instant");
    let parsed = chrono::DateTime::parse_from_rfc3339(&t).expect("own rendering parses back");
    assert_eq!(parsed.timestamp_millis(), 1633072800000);
    assert!(session_timestamp("no capture").is_none());
}

#[test]
fn video_folder_page_plans_subfolders_once() {
    let subs = vec![
        PanoptoSubfolder { ID: "id1".to_string(), Name: "Sub: One".to_string() },
        PanoptoSubfolder { ID: "id2".to_string(), Name: "Two".to_string() },
    ];
    let first = plan_video_folder_page(0, 3, &subs, "vids");
    assert!(!first.done);
    assert_eq!(
        first.subfolder_tasks,
        vec![
            ("id1".to_string(), "vids/Sub One".to_string()),
            ("id2".to_string(), "vids/Two".to_string()),
        ]
    );
    let later = plan_video_folder_page(1, 3, &subs, "vids");
    assert!(later.subfolder_tasks.is_empty());
    let done = plan_video_folder_page(2, 0, &subs, "vids");
    assert!(done.done);
    assert!(done.subfolder_tasks.is_empty());
}
