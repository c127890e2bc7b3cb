use subwoofer::scalar::Scalar;
use subwoofer::settings::{
    Settings, SettingsError, DEFAULT_INTENSITY_BITS, DEFAULT_INTERVAL_MS, DEFAULT_THRESHOLD_BITS,
};

fn num(x: f64) -> Scalar {
    Scalar::from_bits(x.to_bits())
}

fn val(s: Scalar) -> f64 {
    f64::from_bits(s.to_bits())
}

#[test]
fn default_settings() {
    let s = Settings::default();
    assert_eq!(val(s.intensity()), 10.0);
    assert_eq!(val(s.threshold()), 0.005);
    assert_eq!(s.interval_ms(), 35);
    assert_eq!(DEFAULT_INTENSITY_BITS, 10.0f64.to_bits());
    assert_eq!(DEFAULT_THRESHOLD_BITS, 0.005f64.to_bits());
    assert_eq!(DEFAULT_INTERVAL_MS, 35);
}

#[test]
fn new_keeps_what_it_is_given() {
    let s = Settings::new(num(2.5), num(0.25), 7).unwrap();
    assert_eq!(val(s.intensity()), 2.5);
    assert_eq!(val(s.threshold()), 0.25);
    assert_eq!(s.interval_ms(), 7);
}

#[test]
fn new_accepts_the_edges() {
    assert!(Settings::new(num(0.0), num(0.0), 1).is_ok());
    assert!(Settings::new(num(1000.0), num(1.0), u64::MAX).is_ok());
    assert!(Settings::new(num(-0.0), num(-0.0), 1).is_ok());
}

#[test]
fn new_refuses_a_negative_or_undefined_gain() {
    assert_eq!(Settings::new(num(-1.0), num(0.5), 10).err(), Some(SettingsError::Intensity));
    assert_eq!(Settings::new(num(f64::NAN), num(0.5), 10).err(), Some(SettingsError::Intensity));
}

#[test]
fn new_refuses_a_threshold_outside_the_unit_interval() {
    assert_eq!(Settings::new(num(1.0), num(1.5), 10).err(), Some(SettingsError::Threshold));
    assert_eq!(Settings::new(num(1.0), num(-0.1), 10).err(), Some(SettingsError::Threshold));
    assert_eq!(Settings::new(num(1.0), num(f64::NAN), 10).err(), Some(SettingsError::Threshold));
}

#[test]
fn new_refuses_a_zero_interval() {
    assert_eq!(Settings::new(num(1.0), num(0.5), 0).err(), Some(SettingsError::Interval));
}

#[test]
fn new_reports_the_first_fault() {
    assert_eq!(Settings::new(num(-1.0), num(2.0), 0).err(), Some(SettingsError::Intensity));
    assert_eq!(Settings::new(num(1.0), num(2.0), 0).err(), Some(SettingsError::Threshold));
}

#[test]
fn setters_change_one_parameter() {
    let mut s = Settings::default();
    assert_eq!(s.set_intensity(num(3.0)), Ok(()));
    assert_eq!(s.set_threshold(num(0.6)), Ok(()));
    assert_eq!(s.set_interval_ms(200), Ok(()));
    assert_eq!(val(s.intensity()), 3.0);
    assert_eq!(val(s.threshold()), 0.6);
    assert_eq!(s.interval_ms(), 200);
}

#[test]
fn setters_leave_the_settings_alone_on_error() {
    let mut s = Settings::default();
    assert_eq!(s.set_intensity(num(-3.0)), Err(SettingsError::Intensity));
    assert_eq!(s.set_threshold(num(1.6)), Err(SettingsError::Threshold));
    assert_eq!(s.set_interval_ms(0), Err(SettingsError::Interval));
    assert_eq!(val(s.intensity()), 10.0);
    assert_eq!(val(s.threshold()), 0.005);
    assert_eq!(s.interval_ms(), 35);
}
