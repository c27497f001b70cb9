use re_ch_rzl_rust::frame::{fit_targets, rgba_rows_to_rgb, TargetSize};
use re_ch_rzl_rust::wav::{frames_of, load_hit_frames};

#[test]
fn frames_are_flipped_and_lose_alpha() {
    // 2x2 image, rows bottom to top.
    let rgba = vec![1, 2, 3, 4, 5, 6, 7, 8, 9, 10, 11, 12, 13, 14, 15, 16];
    assert_eq!(rgba_rows_to_rgb(&rgba, 2, 2), vec![9, 10, 11, 13, 14, 15, 1, 2, 3, 5, 6, 7]);
    assert_eq!(rgba_rows_to_rgb(&rgba, 1, 3), vec![9, 10, 11, 5, 6, 7, 1, 2, 3]);
    assert_eq!(rgba_rows_to_rgb(&vec![], 0, 0), Vec::<u8>::new());
}

#[test]
fn targets_are_at_least_one_pixel() {
    let mut size = TargetSize::new();
    assert!(!fit_targets(&mut size, 0, 1));
    assert!(fit_targets(&mut size, 640, 360));
    assert_eq!((size.width, size.height), (640, 360));
    assert!(!fit_targets(&mut size, 640, 360));
    assert!(fit_targets(&mut size, 0, 0));
    assert_eq!((size.width, size.height), (1, 1));
}

#[test]
fn samples_group_into_frames() {
    let s = vec![Some(1), Some(2), None, Some(4), Some(5)];
    assert_eq!(frames_of(2, &s), vec![vec![1, 2], vec![0, 4]]);
    assert_eq!(frames_of(1, &vec![]), Vec::<Vec<i16>>::new());
}

fn wav_bytes(channels: u16, samples: &[i16]) -> Vec<u8> {
    let spec = hound::WavSpec {
        channels,
        sample_rate: 44100,
        bits_per_sample: 16,
        sample_format: hound::SampleFormat::Int,
    };
    let mut cursor = std::io::Cursor::new(Vec::new());
    {
        let mut writer = hound::WavWriter::new(&mut cursor, spec).unwrap();
        for &s in samples {
            writer.write_sample(s).unwrap();
        }
        writer.finalize().unwrap();
    }
    cursor.into_inner()
}

#[test]
fn hit_sounds_decode_into_frames() {
    let data = wav_bytes(2, &[100, -100, 7, 8]);
    assert_eq!(load_hit_frames(&data), vec![vec![100, -100], vec![7, 8]]);
    let mono = wav_bytes(1, &[3, 4, 5]);
    assert_eq!(load_hit_frames(&mono), vec![vec![3], vec![4], vec![5]]);
}

#[test]
fn broken_or_empty_sounds_give_no_frames() {
    assert_eq!(load_hit_frames(b"not a wav file"), Vec::<Vec<i16>>::new());
    assert_eq!(load_hit_frames(&wav_bytes(2, &[])), Vec::<Vec<i16>>::new());
}

