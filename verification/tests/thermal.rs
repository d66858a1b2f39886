use apophy::thermal::{first_temperature, gpu_temp_from_readings, is_gpu_safe, reading_temperature};

#[test]
fn read_gpu_temp_no_crash() {
    // Never fails, even without a GPU.
    let temp = gpu_temp_from_readings(&vec![], &vec![]);
    assert!(temp < 200);
    let temp = gpu_temp_from_readings(&vec!["61000\n".to_string()], &vec![]);
    assert!(temp < 200);
}

#[test]
fn is_gpu_safe_without_gpu() {
    // Without a GPU the temperature is 0, so it is always safe.
    assert!(is_gpu_safe(gpu_temp_from_readings(&vec![], &vec![]), 80));
}

#[test]
fn is_gpu_safe_with_limit_zero() {
    // Limit 0 is never safe: 0 >= 0.
    let safe = is_gpu_safe(gpu_temp_from_readings(&vec![], &vec![]), 0);
    assert!(!safe);
}

#[test]
fn readings_are_millidegrees() {
    assert_eq!(reading_temperature("45000\n"), Some(45));
    assert_eq!(reading_temperature("  79999 "), Some(79));
    assert_eq!(reading_temperature("+80000"), Some(80));
    assert_eq!(reading_temperature("999"), Some(0));
    assert_eq!(reading_temperature("4294967295"), Some(4294967));
}

#[test]
fn unparsable_readings_are_skipped() {
    assert_eq!(reading_temperature(""), None);
    assert_eq!(reading_temperature("-5000"), None);
    assert_eq!(reading_temperature("+"), None);
    assert_eq!(reading_temperature("4294967296"), None);
    assert_eq!(reading_temperature("12 000"), None);
    assert_eq!(
        first_temperature(&vec!["n/a".to_string(), "52000".to_string(), "70000".to_string()]),
        Some(52)
    );
}

#[test]
fn nvidia_readings_come_before_amd() {
    let nv = vec!["bad".to_string(), "66000".to_string()];
    let amd = vec!["40000".to_string()];
    assert_eq!(gpu_temp_from_readings(&nv, &amd), 66);
    assert_eq!(gpu_temp_from_readings(&vec!["bad".to_string()], &amd), 40);
    assert!(!is_gpu_safe(gpu_temp_from_readings(&nv, &amd), 66));
    assert!(is_gpu_safe(gpu_temp_from_readings(&nv, &amd), 67));
}
