use yeelight_core::audio::{
    candidate_order, clamp_bars, is_null_device, is_pseudo_device, mode_label, Candidate, MusicMode,
};

#[test]
fn pseudo_device_classification() {
    for real in ["HDA Intel PCH, ALC897 Analog", "PipeWire Sound Server", "PulseAudio Sound Server"] {
        assert!(!is_pseudo_device(&real.to_lowercase()), "{real} wrongly flagged pseudo");
    }
    for pseudo in [
        "Plugin using Speex DSP (resample, agc, denoise, echo, dereverb)",
        "Rate Converter Plugin Using Libav/FFmpeg Library",
        "Plugin for channel upmix (4,6,8)",
        "Default ALSA Output (currently PipeWire Media Server)",
        "Discard all samples (playback) or generate zero samples (capture)",
    ] {
        assert!(is_pseudo_device(&pseudo.to_lowercase()), "{pseudo} should be pseudo");
    }
    assert!(is_null_device(&"Discard all samples (playback) or generate zero samples (capture)".to_lowercase()));
}

#[test]
fn bar_counts_clamp() {
    assert_eq!(clamp_bars(0), 8);
    assert_eq!(clamp_bars(24), 24);
    assert_eq!(clamp_bars(100), 48);
    assert_eq!(clamp_bars(clamp_bars(3)), clamp_bars(3));
}

#[test]
fn mode_labels() {
    assert_eq!(mode_label(MusicMode::Vu), "VU");
    assert_eq!(MusicMode::all().len(), 4);
    assert_eq!(MusicMode::default(), MusicMode::Spectrum);
}

#[test]
fn candidates_in_preference_order() {
    let names: Vec<String> = [
        "Rate Converter Plugin",
        "HDA Intel PCH",
        "PipeWire Sound Server",
        "Discard all samples",
        "USB Mic",
    ]
    .iter()
    .map(|s| s.to_string())
    .collect();
    assert_eq!(
        candidate_order(&names, true, None),
        vec![
            Candidate::Listed(2),
            Candidate::Default,
            Candidate::Listed(1),
            Candidate::Listed(4),
            Candidate::Listed(0),
        ]
    );
    assert_eq!(candidate_order(&names, false, Some("USB Mic")), vec![Candidate::Listed(4)]);
    assert!(candidate_order(&names, true, Some("usb mic")).is_empty());
}
