use kikitori::capture::{choose_input, decimation_factor};

#[test]
fn sixteen_kilohertz_is_preferred() {
    assert_eq!(choose_input(&[(8000, 48000)]), Some((0, 16000)));
    assert_eq!(
        choose_input(&[(48000, 48000), (16000, 16000)]),
        Some((1, 16000))
    );
}

#[test]
fn lowest_multiple_of_sixteen_kilohertz_next() {
    assert_eq!(
        choose_input(&[(44100, 44100), (48000, 48000)]),
        Some((1, 48000))
    );
    assert_eq!(
        choose_input(&[(20000, 40000), (32000, 32000)]),
        Some((0, 32000))
    );
    assert_eq!(choose_input(&[(90000, 100000)]), Some((0, 96000)));
}

#[test]
fn no_preferred_rate() {
    assert_eq!(choose_input(&[(44100, 44100)]), None);
    assert_eq!(choose_input(&[]), None);
}

#[test]
fn decimation() {
    assert_eq!(decimation_factor(48000), Some(3));
    assert_eq!(decimation_factor(16000), Some(1));
    assert_eq!(decimation_factor(44100), None);
}
