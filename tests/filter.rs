use wemux::device::DeviceInfo;
use wemux::filter::HdmiFilter;

#[test]
fn test_hdmi_detection() {
    assert!(HdmiFilter::is_hdmi_device("NVIDIA High Definition Audio"));
    assert!(HdmiFilter::is_hdmi_device("Intel(R) Display Audio"));
    assert!(HdmiFilter::is_hdmi_device("AMD High Definition Audio Device"));
    assert!(HdmiFilter::is_hdmi_device("HDMI Output"));
    assert!(!HdmiFilter::is_hdmi_device("Realtek Audio"));
    assert!(!HdmiFilter::is_hdmi_device("Speakers"));
}

#[test]
fn lowercase_matching_is_exact_on_lowered_text() {
    assert!(HdmiFilter::is_hdmi_name_lowercase("lg tv (hdmi)"));
    assert!(!HdmiFilter::is_hdmi_name_lowercase("LG TV (HDMI)"));
    assert!(HdmiFilter::is_hdmi_name_lowercase("display audio"));
    assert!(!HdmiFilter::is_hdmi_name_lowercase("displa audio"));
    assert!(!HdmiFilter::is_hdmi_name_lowercase(""));
}

#[test]
fn device_ids_are_lowered_before_matching() {
    assert!(HdmiFilter::is_hdmi_device_id("{0.0.0.00000000}.{HDMI-1}"));
    assert!(HdmiFilter::is_hdmi_device_id("SWD\\DISPLAY\\port2"));
    assert!(!HdmiFilter::is_hdmi_device_id("{0.0.0.00000000}.{speakers}"));
    assert!(HdmiFilter::is_hdmi_id_lowercase("a-display-b"));
    assert!(!HdmiFilter::is_hdmi_id_lowercase("A-DISPLAY-B"));
}

#[test]
fn device_info_classification() {
    let default_id = Some("tv".to_string());
    let tv = DeviceInfo::new("tv".to_string(), "Samsung (HDMI)".to_string(), &default_id);
    assert!(tv.is_hdmi);
    assert!(tv.is_default);
    let spk = DeviceInfo::new("spk".to_string(), "Speakers".to_string(), &default_id);
    assert!(!spk.is_hdmi);
    assert!(!spk.is_default);
    assert!(spk.matches(&"eak".to_string()));
    assert!(spk.matches(&"sp".to_string()));
    assert!(!spk.matches(&"SPK".to_string()));
    assert!(spk.matches_any(&vec!["x".to_string(), "pk".to_string()]));
    assert!(!spk.matches_any(&vec![]));
}
