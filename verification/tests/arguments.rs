use cube_convert::arguments::{
    audio_arguments, duration_bytes, encoder_arguments, extract_arguments, listing_arguments,
    render_arguments, stream_arguments, text_arguments, text_filter,
};

fn words(args: &[Vec<u8>]) -> Vec<String> {
    args.iter().map(|a| String::from_utf8(a.clone()).unwrap()).collect()
}

fn line(args: &[Vec<u8>]) -> String {
    words(args).join(" ")
}

#[test]
fn every_run_gets_a_larger_input_queue() {
    let args = encoder_arguments(vec![b"-y".to_vec(), b"out.mp4".to_vec()]);
    assert_eq!(words(&args), vec!["-thread_queue_size", "512", "-y", "out.mp4"]);
    assert_eq!(words(&encoder_arguments(Vec::new())), vec!["-thread_queue_size", "512"]);
}

#[test]
fn raw_video_declares_its_format() {
    let args = stream_arguments(750, 360, 25, b"ultrafast", false, b"out.tmp.mp4");
    assert_eq!(
        line(&args),
        "-y -hide_banner -loglevel error -f rawvideo -pix_fmt rgb24 -s 750x360 -r 25 -i pipe:0 \
         -c:v libx264 -preset ultrafast -pix_fmt yuv420p out.tmp.mp4"
    );
    let limited = stream_arguments(520, 520, 25, b"fast", true, b"a b.mp4");
    assert_eq!(
        words(&limited),
        vec![
            "-y", "-hide_banner", "-loglevel", "error", "-f", "rawvideo", "-pix_fmt", "rgb24",
            "-s", "520x520", "-r", "25", "-i", "pipe:0", "-c:v", "libx264", "-preset", "fast",
            "-pix_fmt", "yuv420p", "-threads", "2", "a b.mp4",
        ]
    );
}

#[test]
fn audio_is_encoded_at_the_given_rate() {
    assert_eq!(
        line(&audio_arguments(b"in.wav", 320, b"out.tmp.mp3")),
        "-y -hide_banner -loglevel error -stats -i in.wav -vn -ar 44100 -ac 2 -b:a 320k \
         -codec:a libmp3lame out.tmp.mp3"
    );
    assert_eq!(words(&audio_arguments(b"in.wav", 192, b"o"))[13], "192k");
}

#[test]
fn list_of_images_is_read_as_a_concatenation() {
    assert_eq!(
        line(&listing_arguments(b"concat.txt", b"ultrafast", b"out.tmp.mp4")),
        "-y -hide_banner -loglevel error -stats -f concat -safe 0 -i concat.txt -vsync vfr \
         -r 25 -c:v libx264 -preset ultrafast -pix_fmt yuv420p out.tmp.mp4"
    );
}

#[test]
fn duration_has_six_decimals_rounded_down() {
    assert_eq!(duration_bytes(0, 60), b"0.000000".to_vec());
    assert_eq!(duration_bytes(60, 60), b"1.000000".to_vec());
    assert_eq!(duration_bytes(851, 60), b"14.183333".to_vec());
    assert_eq!(duration_bytes(350, 60), b"5.833333".to_vec());
    assert_eq!(duration_bytes(61, 60), b"1.016666".to_vec());
    assert_eq!(duration_bytes(90, 60), b"1.500000".to_vec());
    assert_eq!(duration_bytes(7, 25), b"0.280000".to_vec());
    assert_eq!(duration_bytes(u64::MAX, 1), b"18446744073709551615.000000".to_vec());
    assert_eq!(duration_bytes(1, 3_000_000), b"0.000000".to_vec());
    assert_eq!(duration_bytes(u64::MAX - 1, u64::MAX), b"0.999999".to_vec());
    assert_eq!(duration_bytes(u64::MAX, u64::MAX), b"1.000000".to_vec());
}

#[test]
fn filter_draws_the_text_of_a_file() {
    let filter = text_filter(b"assets/font.ttf", b"C:\\tmp\\scroll_text.txt", [1, 171, 16], 851);
    assert_eq!(
        String::from_utf8(filter).unwrap(),
        "color=c=black:s=600x224:d=14.183333:r=60 [bg]; \
         [bg]drawtext=fontfile='assets/font.ttf':textfile='C\\:/tmp/scroll_text.txt':\
         fontcolor=0x01ab10:fontsize=134:y=(h-text_h)/2:x=w-t*120 [out]"
    );
}

#[test]
fn text_video_takes_its_length_from_the_frames() {
    let args = text_arguments(b"FILTER".to_vec(), 851, false, b"out.tmp.mp4");
    assert_eq!(
        line(&args),
        "-y -hide_banner -loglevel error -stats -filter_complex FILTER -map [out] -t 14.183333 \
         -r 60 -c:v libx264 -preset fast -crf 26 -tune animation -g 300 -pix_fmt yuv420p \
         out.tmp.mp4"
    );
    let limited = words(&text_arguments(b"F".to_vec(), 60, true, b"o"));
    assert_eq!(&limited[limited.len() - 3..], ["-threads", "2", "o"]);
}

#[test]
fn tools_are_told_what_to_read() {
    assert_eq!(
        words(&render_arguments(120, b"doc.pdf", b"/tmp/w/pages/page")),
        vec!["-r", "120", "-png", "doc.pdf", "/tmp/w/pages/page"]
    );
    assert_eq!(
        words(&extract_arguments(b"doc.pdf")),
        vec!["-enc", "UTF-8", "-layout", "doc.pdf", "-"]
    );
}
