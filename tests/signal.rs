use openspeak::signal::{conditioned_len, downmix_len, interp_point, InterpPoint, TARGET_RATE};

#[test]
fn downmix_counts_whole_frames() {
    assert_eq!(downmix_len(10, 2), 5);
    assert_eq!(downmix_len(11, 2), 5);
    assert_eq!(downmix_len(7, 1), 7);
    assert_eq!(downmix_len(7, 0), 7);
}

#[test]
fn conditioned_lengths() {
    assert_eq!(conditioned_len(0, 2, 48000, TARGET_RATE), 0);
    assert_eq!(conditioned_len(96000, 2, 48000, 16000), 16000);
    assert_eq!(conditioned_len(44100, 1, 44100, 16000), 16000);
    assert_eq!(conditioned_len(100, 1, 16000, 16000), 100);
    assert_eq!(conditioned_len(2, 1, 48000, 16000), 1);
    assert_eq!(conditioned_len(10, 1, 8000, 16000), 20);
}

#[test]
fn interpolation_points() {
    assert_eq!(
        interp_point(1, 30, 48000, 16000),
        InterpPoint { left: 3, right: 4, num: 0, den: 16000 }
    );
    assert_eq!(
        interp_point(3, 10, 8000, 16000),
        InterpPoint { left: 1, right: 2, num: 8000, den: 16000 }
    );
    // the last frame is held rather than padded
    assert_eq!(
        interp_point(19, 10, 8000, 16000),
        InterpPoint { left: 9, right: 9, num: 8000, den: 16000 }
    );
    // matching rates pick each frame with no weight on the next
    assert_eq!(
        interp_point(4, 10, 16000, 16000),
        InterpPoint { left: 4, right: 5, num: 0, den: 16000 }
    );
}
