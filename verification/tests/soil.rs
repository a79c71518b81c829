use growntrol::{
    median_sample, soil_percent, SoilCalibration, SoilError, SOIL_SAMPLES_PER_MEASUREMENT,
};

#[test]
fn median_rejects_isolated_adc_noise() {
    let mut samples = [2010, 2000, 3990, 1995, 2005, 2015, 1990];
    assert_eq!(median_sample(&mut samples), Ok(2005));
}

#[test]
fn calibration_maps_dry_and_wet_endpoints() {
    let calibration = SoilCalibration {
        dry_raw: 3200,
        wet_raw: 1400,
    };

    assert_eq!(calibration.percentage(3200), Ok(0));
    assert_eq!(calibration.percentage(1400), Ok(100));
    assert_eq!(calibration.percentage(2300), Ok(50));
}

#[test]
fn calibration_clamps_values_outside_range() {
    let calibration = SoilCalibration {
        dry_raw: 3200,
        wet_raw: 1400,
    };

    assert_eq!(calibration.percentage(4000), Ok(0));
    assert_eq!(calibration.percentage(800), Ok(100));
}

#[test]
fn median_of_even_count_and_empty_samples() {
    let mut samples = [10, 40, 30, 20];
    assert_eq!(median_sample(&mut samples), Ok(25));
    assert_eq!(samples, [10, 20, 30, 40]);
    let mut empty: [u16; 0] = [];
    assert_eq!(median_sample(&mut empty), Err(SoilError::EmptySamples));
    let mut high = [65535, 65535];
    assert_eq!(median_sample(&mut high), Ok(65535));
}

#[test]
fn calibration_rounds_toward_zero_and_rejects_equal_endpoints() {
    let rising = SoilCalibration { dry_raw: 1000, wet_raw: 1300 };
    assert_eq!(rising.percentage(1001), Ok(0));
    assert_eq!(rising.percentage(1299), Ok(99));
    assert_eq!(rising.percentage(900), Ok(0));
    let falling = SoilCalibration { dry_raw: 3200, wet_raw: 1400 };
    assert_eq!(falling.percentage(3199), Ok(0));
    assert_eq!(falling.percentage(1401), Ok(99));
    let broken = SoilCalibration { dry_raw: 2000, wet_raw: 2000 };
    assert_eq!(broken.validate(), Err(SoilError::InvalidCalibration));
    assert_eq!(broken.percentage(2000), Err(SoilError::InvalidCalibration));
    assert_eq!(rising.validate(), Ok(()));
}

#[test]
fn soil_measurement_is_the_calibrated_median_of_seven_samples() {
    let calibration = SoilCalibration { dry_raw: 3200, wet_raw: 1400 };
    let mut samples = [2300, 2290, 3990, 2310, 100, 2305, 2295];
    assert_eq!(samples.len(), SOIL_SAMPLES_PER_MEASUREMENT);
    assert_eq!(soil_percent(&mut samples, calibration), Ok(50));
    let mut none: [u16; 0] = [];
    assert_eq!(soil_percent(&mut none, calibration), Err(SoilError::EmptySamples));
    let broken = SoilCalibration { dry_raw: 2000, wet_raw: 2000 };
    let mut samples = [2000; 7];
    assert_eq!(soil_percent(&mut samples, broken), Err(SoilError::InvalidCalibration));
}
