use dawlib::sample_rate::SampleRate;

#[test]
fn ms_to_sample_rate() {
    let sample_rate = SampleRate(44100);
    assert_eq!(sample_rate.ms_to_sample(2000), 88200);
    assert_eq!(sample_rate.ms_to_sample(1000), 44100);
    assert_eq!(sample_rate.ms_to_sample(100), 4410);
    assert_eq!(sample_rate.ms_to_sample(10), 441);
    assert_eq!(sample_rate.ms_to_sample(1), 44);
}

#[test]
fn sample_to_ms() {
    let sample_rate = SampleRate(44100);

    assert_eq!(sample_rate.sample_to_ms(88200), 2000);
    assert_eq!(sample_rate.sample_to_ms(44100), 1000);
    assert_eq!(sample_rate.sample_to_ms(4410), 100);
    assert_eq!(sample_rate.sample_to_ms(441), 10);
    assert_eq!(sample_rate.sample_to_ms(44), 0);
    assert_eq!(sample_rate.sample_to_ms(4), 0);
}

#[test]
fn ms_to_sample_rounds_down_and_saturates() {
    assert_eq!(SampleRate(22050).ms_to_sample(10), 220);
    assert_eq!(SampleRate(48000).ms_to_sample(0), 0);
    assert_eq!(SampleRate(0).ms_to_sample(5000), 0);
    assert_eq!(SampleRate(u32::MAX).ms_to_sample(1000), u32::MAX);
    assert_eq!(SampleRate(u32::MAX).ms_to_sample(1001), u32::MAX);
    assert_eq!(SampleRate(u32::MAX).ms_to_sample(u32::MAX), u32::MAX);
    assert_eq!(SampleRate(96000).ms_to_sample(44739), 4294944);
}

#[test]
fn sample_to_ms_rounds_down_and_saturates() {
    assert_eq!(SampleRate(22050).sample_to_ms(220), 9);
    assert_eq!(SampleRate(48000).sample_to_ms(47), 0);
    assert_eq!(SampleRate(48000).sample_to_ms(48), 1);
    assert_eq!(SampleRate(1).sample_to_ms(4294967), 4294967000);
    assert_eq!(SampleRate(1).sample_to_ms(4294968), u32::MAX);
    assert_eq!(SampleRate(0).sample_to_ms(0), 0);
    assert_eq!(SampleRate(0).sample_to_ms(1), u32::MAX);
}
