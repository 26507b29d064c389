use nexus_de::metrics::bytes_to_mebibytes;
use nexus_de::wallpaper::{colour_weights_fit, dominant_color, quantize_channel};

#[test]
fn quantize_to_bucket_centre() {
    assert_eq!(quantize_channel(0), 8);
    assert_eq!(quantize_channel(15), 8);
    assert_eq!(quantize_channel(16), 24);
    assert_eq!(quantize_channel(240), 248);
    assert_eq!(quantize_channel(255), 248);
}

#[test]
fn no_samples_gives_sky_blue() {
    assert_eq!(dominant_color(&Vec::new()), (56, 189, 248));
}

#[test]
fn heaviest_colour_wins() {
    let samples = vec![
        (248, 88, 24, 7),
        (24, 24, 24, 1),
        (24, 24, 24, 1),
        (248, 88, 24, 7),
        (24, 24, 24, 1),
    ];
    assert_eq!(dominant_color(&samples), (248, 88, 24));
}

#[test]
fn many_light_samples_beat_one_heavy() {
    let mut samples = vec![(8, 8, 200, 10)];
    for _ in 0..11 {
        samples.push((200, 8, 8, 1));
    }
    assert_eq!(dominant_color(&samples), (200, 8, 8));
}

#[test]
fn tie_picks_one_of_the_tied() {
    let samples = vec![(8, 8, 8, 3), (24, 24, 24, 3)];
    let c = dominant_color(&samples);
    assert!(c == (8, 8, 8) || c == (24, 24, 24));
}

#[test]
fn colour_weights_fit_per_colour() {
    assert!(colour_weights_fit(&Vec::new()));
    assert!(colour_weights_fit(&vec![(8, 8, 8, u32::MAX), (24, 24, 24, u32::MAX)]));
    assert!(!colour_weights_fit(&vec![(8, 8, 8, u32::MAX), (8, 8, 8, 1)]));
    let samples = vec![(8, 8, 8, u32::MAX - 1), (24, 24, 24, 5), (8, 8, 8, 1)];
    assert!(colour_weights_fit(&samples));
    assert_eq!(dominant_color(&samples), (8, 8, 8));
}

#[test]
fn mebibytes_round_down() {
    assert_eq!(bytes_to_mebibytes(0), 0);
    assert_eq!(bytes_to_mebibytes(1048575), 0);
    assert_eq!(bytes_to_mebibytes(1048576), 1);
    assert_eq!(bytes_to_mebibytes(16 * 1024 * 1024 * 1024), 16384);
}
