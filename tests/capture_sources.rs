use glazebot::capture::{
    all_transparent, capture_thumbnail, encode_frame, is_listed_title, jpeg_data_uri,
    monitor_name, monitor_source, monitor_source_id, parse_source_id, rgba_to_rgb, window_listed,
    window_source, window_source_id, CaptureError, SourceRef, THUMBNAIL_HEIGHT, THUMBNAIL_WIDTH,
};

#[test]
fn source_ids_round_trip() {
    assert_eq!(monitor_source_id(3), "monitor-3");
    assert_eq!(window_source_id(4294967295), "window-4294967295");
    assert_eq!(parse_source_id(&monitor_source_id(12)), Ok(SourceRef::Monitor(12)));
    assert_eq!(parse_source_id(&window_source_id(987)), Ok(SourceRef::Window(987)));
}

#[test]
fn source_id_parsing() {
    assert_eq!(parse_source_id("monitor-2"), Ok(SourceRef::Monitor(2)));
    assert_eq!(parse_source_id("monitor-+7"), Ok(SourceRef::Monitor(7)));
    assert_eq!(parse_source_id("monitor-"), Err(CaptureError::InvalidMonitorId));
    assert_eq!(parse_source_id("monitor-x1"), Err(CaptureError::InvalidMonitorId));
    assert_eq!(parse_source_id("monitor-1 "), Err(CaptureError::InvalidMonitorId));
    assert_eq!(parse_source_id("window-123"), Ok(SourceRef::Window(123)));
    assert_eq!(parse_source_id("window-4294967296"), Err(CaptureError::InvalidWindowId));
    assert_eq!(parse_source_id("window--1"), Err(CaptureError::InvalidWindowId));
    assert_eq!(parse_source_id("screen-1"), Err(CaptureError::UnknownSourceType));
    assert_eq!(parse_source_id("Monitor-1"), Err(CaptureError::UnknownSourceType));
}

#[test]
fn monitor_names() {
    assert_eq!(monitor_name(0, 1, true), "Primary Display");
    assert_eq!(monitor_name(0, 1, false), "Primary Display");
    assert_eq!(monitor_name(1, 3, true), "Display 2 (Primary)");
    assert_eq!(monitor_name(0, 2, false), "Display 1 ");
    assert_eq!(monitor_name(9, 12, false), "Display 10 ");
}

#[test]
fn window_filtering() {
    assert!(!window_listed(""));
    assert!(!window_listed("a"));
    assert!(window_listed("ab"));
    assert!(window_listed("é"));
    assert!(!window_listed("Task Switching"));
    assert!(!window_listed("My TASK SWITCHING tool"));
    assert!(!window_listed("Program Manager"));
    assert!(window_listed("Program Manager 2"));
    assert!(!window_listed("Windows Input Experience"));
    assert!(!window_listed("MSRDC"));
    assert!(window_listed("Notes"));
    assert!(!is_listed_title(15, "program manager"));
    assert!(is_listed_title(15, "Program Manager"));
    assert!(!is_listed_title(1, "x"));
}

#[test]
fn rgba_conversion_and_transparency() {
    assert_eq!(rgba_to_rgb(&[1, 2, 3, 4, 5, 6, 7, 8]), vec![1, 2, 3, 5, 6, 7]);
    assert_eq!(rgba_to_rgb(&[]), Vec::<u8>::new());
    assert!(all_transparent(&[1, 2, 3, 0, 9, 9, 9, 0]));
    assert!(!all_transparent(&[1, 2, 3, 0, 9, 9, 9, 1]));
    assert!(all_transparent(&[]));
}

#[test]
fn data_uri_is_base64_of_the_file() {
    assert_eq!(jpeg_data_uri(&[1, 2, 3]), "data:image/jpeg;base64,AQID");
    assert_eq!(jpeg_data_uri(&[0xff, 0xd8]), "data:image/jpeg;base64,/9g=");
    assert_eq!(jpeg_data_uri(&[]), "data:image/jpeg;base64,");
}

#[test]
fn frames_encode_as_jpeg() {
    let rgba = vec![200u8; 2 * 3 * 4];
    let frame = encode_frame(&rgba, 2, 3, false).unwrap();
    assert_eq!((frame.width, frame.height), (2, 3));
    assert!(frame.data_uri.starts_with("data:image/jpeg;base64,/9j/"));
    let gridded = encode_frame(&rgba, 2, 3, true).unwrap();
    assert_ne!(gridded.data_uri, frame.data_uri);
    assert!(matches!(encode_frame(&[], 0, 0, false), Err(CaptureError::Encode(_))));
}

#[test]
fn thumbnails_are_jpeg_previews() {
    let thumb = capture_thumbnail(vec![10u8; 4 * 4 * 4], 4, 4, THUMBNAIL_WIDTH, THUMBNAIL_HEIGHT).unwrap();
    assert!(thumb.starts_with("data:image/jpeg;base64,/9j/"));
    let tiny = capture_thumbnail(vec![10u8; 4 * 4 * 4], 4, 4, 2, 1).unwrap();
    assert_ne!(tiny, thumb);
    assert!(capture_thumbnail(vec![10u8; 16], 2, 2, 0, 5).is_none());
}

#[test]
fn listing_entries() {
    let m = monitor_source(1, 2, true, None);
    assert_eq!(m.id, "monitor-1");
    assert_eq!(m.name, "Display 2 (Primary)");
    assert_eq!(m.source_type, "monitor");
    assert!(m.thumbnail.is_none());
    let w = window_source(42, "Editor".to_string(), Some("data:x".to_string()));
    assert_eq!(w.id, "window-42");
    assert_eq!(w.name, "Editor");
    assert_eq!(w.source_type, "window");
    assert_eq!(w.thumbnail.as_deref(), Some("data:x"));
}
