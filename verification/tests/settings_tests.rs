use escl::capabilities::{ColorMode, ScanIntent};
use escl::settings::{ContentRegionUnits, InputSource, ScanRegion, ScanRegions, ScanSettings};

fn full_settings() -> ScanSettings {
    ScanSettings {
        version: "2.63".to_owned(),
        intent: Some(ScanIntent::Photo),
        scan_regions: Some(ScanRegions {
            scan_region: ScanRegion {
                height: 3508,
                content_region_units: ContentRegionUnits::ThreeHundredthsOfInches,
                width: 2550,
                x_offset: 10,
                y_offset: 20,
            },
        }),
        document_format_ext: Some("image/jpeg".to_owned()),
        input_source: Some(InputSource::Platen),
        x_resolution: Some(300),
        y_resolution: Some(600),
        color_mode: Some(ColorMode::RGB24),
        compression_factor: Some(25),
        blank_page_detection: Some(false),
    }
}

#[test]
fn test_round_trip_every_field_populated() {
    let settings = full_settings();
    let xml = settings.to_xml();
    let back = ScanSettings::from_xml(xml.as_str()).expect("round trip should decode");
    assert_eq!(back, settings);
}

#[test]
fn test_round_trip_every_field_absent() {
    let settings = ScanSettings {
        version: "2.0".to_owned(),
        intent: None,
        scan_regions: None,
        document_format_ext: None,
        input_source: None,
        x_resolution: None,
        y_resolution: None,
        color_mode: None,
        compression_factor: None,
        blank_page_detection: None,
    };
    let xml = settings.to_xml();
    // every optional element is omitted entirely: no empty tags
    assert_eq!(
        xml,
        "<?xml version=\"1.0\" encoding=\"utf-8\"?><scan:ScanSettings><pwg:Version>2.0</pwg:Version></scan:ScanSettings>"
    );
    let back = ScanSettings::from_xml(xml.as_str()).expect("decode");
    assert_eq!(back, settings);
}

#[test]
fn test_exact_document_with_region() {
    let settings = ScanSettings {
        version: "2.63".to_owned(),
        intent: None,
        scan_regions: Some(ScanRegions {
            scan_region: ScanRegion {
                height: 100,
                content_region_units: ContentRegionUnits::ThreeHundredthsOfInches,
                width: 200,
                x_offset: 0,
                y_offset: 0,
            },
        }),
        document_format_ext: None,
        input_source: None,
        x_resolution: None,
        y_resolution: None,
        color_mode: None,
        compression_factor: None,
        blank_page_detection: None,
    };
    assert_eq!(
        settings.to_xml(),
        "<?xml version=\"1.0\" encoding=\"utf-8\"?><scan:ScanSettings><pwg:Version>2.63</pwg:Version><pwg:ScanRegions><pwg:ScanRegion><pwg:Height>100</pwg:Height><pwg:ContentRegionUnits>escl:ThreeHundredthsOfInches</pwg:ContentRegionUnits><pwg:Width>200</pwg:Width><pwg:XOffset>0</pwg:XOffset><pwg:YOffset>0</pwg:YOffset></pwg:ScanRegion></pwg:ScanRegions></scan:ScanSettings>"
    );
}

#[test]
fn test_boolean_and_numbers_encode_exactly() {
    let mut settings = full_settings();
    settings.blank_page_detection = Some(true);
    let xml = settings.to_xml();
    assert!(xml.contains("<scan:BlankPageDetection>true</scan:BlankPageDetection>"));
    assert!(xml.contains("<scan:XResolution>300</scan:XResolution>"));
    assert!(xml.contains("<scan:YResolution>600</scan:YResolution>"));
    assert!(xml.contains("<scan:CompressionFactor>25</scan:CompressionFactor>"));
    assert!(xml.contains("<scan:ColorMode>RGB24</scan:ColorMode>"));
    assert!(xml.contains("<pwg:InputSource>Platen</pwg:InputSource>"));
    assert!(xml.contains("<scan:Intent>Photo</scan:Intent>"));
}

#[test]
fn test_decode_unknown_input_source_is_extension() {
    let xml = "<scan:ScanSettings><pwg:Version>2.0</pwg:Version><pwg:InputSource>Camera</pwg:InputSource></scan:ScanSettings>";
    let settings = ScanSettings::from_xml(xml).expect("decode");
    assert_eq!(settings.input_source, Some(InputSource::Custom("Camera".to_owned())));
}

#[test]
fn test_decode_bad_number_fails() {
    let xml = "<scan:ScanSettings><pwg:Version>2.0</pwg:Version><scan:XResolution>dpi</scan:XResolution></scan:ScanSettings>";
    assert!(ScanSettings::from_xml(xml).is_err());
}

#[test]
fn test_decode_wrong_root_fails() {
    let xml = "<scan:Settings><pwg:Version>2.0</pwg:Version></scan:Settings>";
    assert!(ScanSettings::from_xml(xml).is_err());
}
