use syntro_rdp::protocol::encode_init_message;
use syntro_rdp::codec::Picture;
use syntro_rdp::video::{update_for_decoded, data_url_of_base64, data_url_of_jpeg, render_picture, CaptureStep, HostVideo, ViewerUpdate, ViewerVideo};

const PREFIX: &str = "data:image/jpeg;base64,";

#[test]
fn picture_becomes_jpeg_data_url() {
    let rgb = vec![200u8; 8 * 8 * 3];
    let url = render_picture(&rgb, 8, 8).expect("encodes");
    assert!(url.starts_with(PREFIX));
    // a JPEG file opens with FF D8 FF, which base64 writes as "/9j/"
    assert!(url[PREFIX.len()..].starts_with("/9j/"));
    assert_eq!((url.len() - PREFIX.len()) % 4, 0);
}

#[test]
fn pictures_the_jpeg_encoder_refuses() {
    assert_eq!(render_picture(&[], 0, 0), None);
    assert_eq!(render_picture(&[1, 2, 3], 0, 1), None);
    assert_eq!(render_picture(&[1, 2, 3], 2, 1), None);
    // sides are cut to 16 bits: 65536 becomes 0
    assert_eq!(render_picture(&[1, 2, 3], 65536, 1), None);
}

#[test]
fn viewer_passes_announcements_on() {
    let mut viewer = ViewerVideo::new().expect("decoder");
    assert!(matches!(
        viewer.handle_payload(&encode_init_message(640, 480)),
        ViewerUpdate::Announcement
    ));
    assert!(matches!(viewer.handle_payload(b"not h264"), ViewerUpdate::Nothing));
}

#[test]
fn host_announces_then_sends_video_that_the_viewer_shows() {
    let (w, h) = (32usize, 32usize);
    let mut bgra = vec![0u8; w * h * 4];
    for (i, px) in bgra.chunks_mut(4).enumerate() {
        px[0] = (i % 251) as u8;
        px[1] = 90;
        px[2] = 180;
        px[3] = 255;
    }
    let mut host = HostVideo::new();
    assert!(!host.is_ready());
    let first = match host.capture(&bgra, w, h) {
        CaptureStep::Send(msgs) => msgs,
        CaptureStep::Stop => panic!("encoder should come up"),
    };
    assert!(host.is_ready());
    assert!(!first.is_empty() && first.len() <= 2);
    assert_eq!(first[0], encode_init_message(w, h));

    let mut viewer = ViewerVideo::new().expect("decoder");
    let mut shown = 0;
    let mut video = first[1..].to_vec();
    for _ in 0..5 {
        match host.capture(&bgra, w, h) {
            CaptureStep::Send(msgs) => {
                assert!(msgs.len() <= 1);
                for m in &msgs {
                    assert!(!m.is_empty());
                    assert_ne!(m[..], encode_init_message(w, h)[..]);
                }
                video.extend(msgs);
            }
            CaptureStep::Stop => panic!("a ready encoder never stops"),
        }
    }
    for m in &video {
        match viewer.handle_payload(m) {
            ViewerUpdate::Picture { data_url } => {
                assert!(data_url.starts_with(PREFIX));
                shown += 1;
            }
            ViewerUpdate::Announcement => panic!("video taken for an announcement"),
            ViewerUpdate::Nothing => {}
        }
    }
    assert!(shown > 0);
}

#[test]
fn data_url_wraps_base64() {
    assert_eq!(data_url_of_base64("QUJD"), "data:image/jpeg;base64,QUJD");
    assert_eq!(data_url_of_base64(""), PREFIX);
}

#[test]
fn data_url_of_jpeg_bytes_is_standard_base64() {
    assert_eq!(data_url_of_jpeg(b"ABC"), "data:image/jpeg;base64,QUJD");
    assert_eq!(data_url_of_jpeg(b"AB"), "data:image/jpeg;base64,QUI=");
    assert_eq!(data_url_of_jpeg(b"A"), "data:image/jpeg;base64,QQ==");
    assert_eq!(data_url_of_jpeg(&[0xff, 0xd8, 0xff]), "data:image/jpeg;base64,/9j/");
    assert_eq!(data_url_of_jpeg(&[]), PREFIX);
    assert_eq!(data_url_of_jpeg(b"Man"), "data:image/jpeg;base64,TWFu");
    assert_eq!(data_url_of_jpeg(b"Many hands"), "data:image/jpeg;base64,TWFueSBoYW5kcw==");
    assert_eq!(data_url_of_jpeg(&[0xfb, 0xef, 0xff]), "data:image/jpeg;base64,++//");
}

#[test]
fn decoder_outcomes_become_updates() {
    assert!(matches!(update_for_decoded(None), ViewerUpdate::Nothing));
    let empty = Picture { width: 0, height: 0, rgb: Vec::new() };
    assert!(matches!(update_for_decoded(Some(empty)), ViewerUpdate::Nothing));
    let rgb = vec![10u8; 4 * 2 * 3];
    let expected = render_picture(&rgb, 4, 2).expect("encodes");
    match update_for_decoded(Some(Picture { width: 4, height: 2, rgb })) {
        ViewerUpdate::Picture { data_url } => assert_eq!(data_url, expected),
        _ => panic!("a picture should be shown"),
    }
}
