use showcase_curator::download::{
    download_arguments, encode_arguments, mute_arguments, random_filename, video_name,
    DOWNLOADER, ENCODER, EXTRACTED,
};

#[test]
fn a_random_filename_is_ten_letters_or_digits_and_the_ending() {
    for _ in 0..200 {
        let name = random_filename();
        assert_eq!(name.len(), 14);
        assert!(name.ends_with(".mp4"));
        assert!(name[..10].bytes().all(|b| b.is_ascii_alphanumeric()));
    }
}

#[test]
fn random_filenames_are_not_all_the_same() {
    let first = random_filename();
    assert!((0..50).any(|_| random_filename() != first));
}

#[test]
fn the_programs_have_their_names() {
    assert_eq!(DOWNLOADER, "yt-dlp");
    assert_eq!(ENCODER, "ffmpeg");
    assert_eq!(EXTRACTED, "extracted.webm");
}

#[test]
fn the_downloader_is_told_where_to_put_what() {
    assert_eq!(
        download_arguments("abc.mp4", "https://example.org/v"),
        vec!["-o", "abc.mp4", "https://example.org/v"]
    );
}

#[test]
fn the_encoder_is_told_how_to_encode() {
    assert_eq!(
        encode_arguments("abc.mp4"),
        vec![
            "-i", "abc.mp4", "-c:v", "libvpx", "-deadline", "good", "-cpu-used", "4", "-crf", "32",
            "-threads", "2", "-an", "extracted.webm",
        ]
    );
}

#[test]
fn the_encoder_is_told_how_to_take_the_sound_off() {
    assert_eq!(
        mute_arguments("abc.mp4"),
        vec!["-i", "abc.mp4", "-c", "copy", "-an", "extracted.webm"]
    );
}

#[test]
fn a_video_is_named_after_its_stem() {
    assert_eq!(video_name(&b"aZ09bY18cX".to_vec()), "aZ09bY18cX.mp4");
    assert_eq!(video_name(&b"0123456789".to_vec()), "0123456789.mp4");
    assert_eq!(video_name(&vec![]), ".mp4");
}
