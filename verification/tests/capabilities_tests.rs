use escl::capabilities::{CcdChannel, ColorMode, ColorModes, ContentType, ScanIntent, ScannerCapabilities};
use escl::settings::ScanSettings;

fn brother_style_document() -> &'static str {
    "<?xml version=\"1.0\" encoding=\"UTF-8\"?>\n\
     <scan:ScannerCapabilities xmlns:scan=\"http://schemas.hp.com/imaging/escl/2011/05/03\" xmlns:pwg=\"http://www.pwg.org/schemas/2010/12/sm\">\n\
       <pwg:Version>2.63</pwg:Version>\n\
       <pwg:MakeAndModel>Example MFC-J497DW</pwg:MakeAndModel>\n\
       <pwg:SerialNumber>000G0123456789</pwg:SerialNumber>\n\
       <scan:UUID>00000000-0000-1000-8000-001122334455</scan:UUID>\n\
       <scan:AdminURI>http://192.168.1.51/net/airprint.html</scan:AdminURI>\n\
       <scan:IconURI>http://192.168.1.51/icons/device-128.png</scan:IconURI>\n\
       <scan:Platen>\n\
         <scan:PlatenInputCaps>\n\
           <scan:MinWidth>16</scan:MinWidth>\n\
           <scan:MaxWidth>2550</scan:MaxWidth>\n\
           <scan:MinHeight>16</scan:MinHeight>\n\
           <scan:MaxHeight>3508</scan:MaxHeight>\n\
           <scan:MaxScanRegions>1</scan:MaxScanRegions>\n\
           <scan:SettingProfiles>\n\
             <scan:SettingProfile>\n\
               <scan:ColorModes>\n\
                 <scan:ColorMode>Grayscale8</scan:ColorMode>\n\
                 <scan:ColorMode>RGB24</scan:ColorMode>\n\
               </scan:ColorModes>\n\
               <scan:ContentTypes>\n\
                 <pwg:ContentType>Photo</pwg:ContentType>\n\
                 <pwg:ContentType>Text</pwg:ContentType>\n\
               </scan:ContentTypes>\n\
               <scan:DocumentFormats>\n\
                 <pwg:DocumentFormat>image/jpeg</pwg:DocumentFormat>\n\
                 <pwg:DocumentFormat>application/pdf</pwg:DocumentFormat>\n\
                 <scan:DocumentFormatExt>image/jpeg</scan:DocumentFormatExt>\n\
               </scan:DocumentFormats>\n\
               <scan:SupportedResolutions>\n\
                 <scan:DiscreteResolutions>\n\
                   <scan:DiscreteResolution>\n\
                     <scan:XResolution>100</scan:XResolution>\n\
                     <scan:YResolution>100</scan:YResolution>\n\
                   </scan:DiscreteResolution>\n\
                   <scan:DiscreteResolution>\n\
                     <scan:XResolution>300</scan:XResolution>\n\
                     <scan:YResolution>300</scan:YResolution>\n\
                   </scan:DiscreteResolution>\n\
                 </scan:DiscreteResolutions>\n\
               </scan:SupportedResolutions>\n\
               <scan:ColorSpaces>\n\
                 <scan:ColorSpace>CS_JPEG_YCC</scan:ColorSpace>\n\
               </scan:ColorSpaces>\n\
               <scan:CcdChannels>\n\
                 <scan:CcdChannel>NTSC</scan:CcdChannel>\n\
               </scan:CcdChannels>\n\
             </scan:SettingProfile>\n\
           </scan:SettingProfiles>\n\
           <scan:SupportedIntents>\n\
             <scan:Intent>Document</scan:Intent>\n\
             <scan:Intent>Photo</scan:Intent>\n\
             <scan:Intent>Preview</scan:Intent>\n\
           </scan:SupportedIntents>\n\
           <scan:MaxOpticalXResolution>1200</scan:MaxOpticalXResolution>\n\
           <scan:MaxOpticalYResolution>2400</scan:MaxOpticalYResolution>\n\
           <scan:RiskyLeftMargin>0</scan:RiskyLeftMargin>\n\
           <scan:RiskyRightMargin>0</scan:RiskyRightMargin>\n\
           <scan:RiskyTopMargin>0</scan:RiskyTopMargin>\n\
           <scan:RiskyBottomMargin>0</scan:RiskyBottomMargin>\n\
         </scan:PlatenInputCaps>\n\
       </scan:Platen>\n\
     </scan:ScannerCapabilities>"
}

fn canon_style_document() -> &'static str {
    "<?xml version=\"1.0\" encoding=\"UTF-8\"?>\n\
     <scan:ScannerCapabilities xmlns:scan=\"http://schemas.hp.com/imaging/escl/2011/05/03\" xmlns:pwg=\"http://www.pwg.org/schemas/2010/12/sm\">\n\
       <pwg:Version>2.62</pwg:Version>\n\
       <pwg:MakeAndModel>Example TS5300 series</pwg:MakeAndModel>\n\
       <scan:Manufacturer>Example</scan:Manufacturer>\n\
       <pwg:SerialNumber>ABCDE12345</pwg:SerialNumber>\n\
       <scan:UUID>10000000-2000-3000-4000-505060607070</scan:UUID>\n\
       <scan:AdminURI>http://192.168.1.14/index.html</scan:AdminURI>\n\
       <scan:IconURI>http://192.168.1.14/icon/printer.png</scan:IconURI>\n\
       <scan:Certifications>\n\
         <scan:Certification>\n\
           <scan:Name>mopria-certified-scan</scan:Name>\n\
           <scan:Version>1.2</scan:Version>\n\
         </scan:Certification>\n\
       </scan:Certifications>\n\
       <scan:Platen>\n\
         <scan:PlatenInputCaps>\n\
           <scan:MinWidth>16</scan:MinWidth>\n\
           <scan:MaxWidth>2550</scan:MaxWidth>\n\
           <scan:MinHeight>16</scan:MinHeight>\n\
           <scan:MaxHeight>3508</scan:MaxHeight>\n\
           <scan:MaxScanRegions>1</scan:MaxScanRegions>\n\
           <scan:SettingProfiles>\n\
             <scan:SettingProfile>\n\
               <scan:ColorModes>\n\
                 <scan:ColorMode>Grayscale8</scan:ColorMode>\n\
                 <scan:ColorMode>RGB24</scan:ColorMode>\n\
                 <scan:ColorMode>RGB48</scan:ColorMode>\n\
               </scan:ColorModes>\n\
               <scan:DocumentFormats>\n\
                 <pwg:DocumentFormat>image/jpeg</pwg:DocumentFormat>\n\
                 <scan:DocumentFormatExt>application/pdf</scan:DocumentFormatExt>\n\
               </scan:DocumentFormats>\n\
               <scan:SupportedResolutions>\n\
                 <scan:DiscreteResolutions>\n\
                   <scan:DiscreteResolution>\n\
                     <scan:XResolution>300</scan:XResolution>\n\
                     <scan:YResolution>300</scan:YResolution>\n\
                   </scan:DiscreteResolution>\n\
                 </scan:DiscreteResolutions>\n\
               </scan:SupportedResolutions>\n\
               <scan:ColorSpaces>\n\
                 <scan:ColorSpace>CS_JPEG_YCC</scan:ColorSpace>\n\
               </scan:ColorSpaces>\n\
               <scan:CcdChannels>\n\
                 <scan:CcdChannel>Red</scan:CcdChannel>\n\
                 <scan:CcdChannel>GrayCcdExtended</scan:CcdChannel>\n\
               </scan:CcdChannels>\n\
             </scan:SettingProfile>\n\
           </scan:SettingProfiles>\n\
           <scan:SupportedIntents>\n\
             <scan:Intent>Document</scan:Intent>\n\
             <scan:Intent>BrightDocument</scan:Intent>\n\
           </scan:SupportedIntents>\n\
           <scan:MaxOpticalXResolution>1200</scan:MaxOpticalXResolution>\n\
           <scan:MaxOpticalYResolution>2400</scan:MaxOpticalYResolution>\n\
           <scan:RiskyLeftMargin>8</scan:RiskyLeftMargin>\n\
           <scan:RiskyRightMargin>8</scan:RiskyRightMargin>\n\
           <scan:RiskyTopMargin>8</scan:RiskyTopMargin>\n\
           <scan:RiskyBottomMargin>8</scan:RiskyBottomMargin>\n\
         </scan:PlatenInputCaps>\n\
       </scan:Platen>\n\
       <scan:CompressionFactorSupport>\n\
         <scan:Min>0</scan:Min>\n\
         <scan:Max>9</scan:Max>\n\
         <scan:Normal>5</scan:Normal>\n\
         <scan:Step>1</scan:Step>\n\
       </scan:CompressionFactorSupport>\n\
       <scan:SupportedMediaTypes>\n\
         <scan:MediaType>Photo</scan:MediaType>\n\
         <scan:MediaType>Document</scan:MediaType>\n\
       </scan:SupportedMediaTypes>\n\
       <scan:SharpenSupport>\n\
         <scan:Min>0</scan:Min>\n\
         <scan:Max>2</scan:Max>\n\
         <scan:Normal>1</scan:Normal>\n\
         <scan:Step>1</scan:Step>\n\
       </scan:SharpenSupport>\n\
     </scan:ScannerCapabilities>"
}

#[test]
pub fn test_capabilities_deser() {
    for raw_xml in [brother_style_document(), canon_style_document()].into_iter() {
        ScannerCapabilities::from_xml(raw_xml).expect("capabilities deserializing failure");
    }
}

#[test]
fn test_capabilities_fields() {
    let caps = ScannerCapabilities::from_xml(brother_style_document()).expect("decode");
    assert_eq!(caps.version, "2.63");
    assert_eq!(caps.make_and_model, "Example MFC-J497DW");
    assert_eq!(caps.manufacturer, None);
    assert!(caps.certifications.is_empty());
    let ic = &caps.platen.platen_input_caps;
    assert_eq!(ic.max_width, 2550);
    assert_eq!(ic.max_height, 3508);
    let profile = &ic.setting_profiles.setting_profile;
    assert_eq!(
        profile.color_modes.color_mode,
        vec![ColorMode::Grayscale8, ColorMode::RGB24]
    );
    assert_eq!(
        profile.content_types.content_type,
        vec![ContentType::Photo, ContentType::Text]
    );
    assert_eq!(
        profile.document_formats.document_format,
        vec!["image/jpeg".to_owned(), "application/pdf".to_owned()]
    );
    assert_eq!(profile.supported_resolutions.discrete_resolutions.discrete_resolution.len(), 2);
    assert_eq!(
        profile.supported_resolutions.discrete_resolutions.discrete_resolution[1].x_resolution,
        300
    );
    assert_eq!(ic.supported_intents.intent.len(), 3);
    assert_eq!(ic.supported_intents.intent[0], ScanIntent::Document);
    // a field the device wrote as a single node decodes to a one-entry list
    assert_eq!(profile.color_spaces.color_space, vec!["CS_JPEG_YCC".to_owned()]);
    assert_eq!(profile.document_formats.document_format_ext, vec!["image/jpeg".to_owned()]);
}

#[test]
fn test_capabilities_optional_parts() {
    let caps = ScannerCapabilities::from_xml(canon_style_document()).expect("decode");
    assert_eq!(caps.manufacturer, Some("Example".to_owned()));
    assert_eq!(caps.certifications.certification.len(), 1);
    assert_eq!(caps.certifications.certification[0].name, "mopria-certified-scan");
    let comp = caps.compression_factor_support.expect("compression support");
    assert_eq!((comp.min, comp.max, comp.normal, comp.step), (0, 9, 5, 1));
    assert_eq!(
        caps.supported_media_types.media_type,
        vec!["Photo".to_owned(), "Document".to_owned()]
    );
    assert!(caps.sharpen_support.is_some());
}

#[test]
fn test_unknown_tokens_become_extensions() {
    let caps = ScannerCapabilities::from_xml(canon_style_document()).expect("decode");
    let profile = &caps.platen.platen_input_caps.setting_profiles.setting_profile;
    assert_eq!(
        profile.ccd_channels.ccd_channel,
        vec![CcdChannel::Red, CcdChannel::Custom("GrayCcdExtended".to_owned())]
    );
    assert_eq!(
        caps.platen.platen_input_caps.supported_intents.intent[1],
        ScanIntent::Custom("BrightDocument".to_owned())
    );
}

#[test]
fn test_single_node_decodes_to_one_element_list() {
    let one = "<caps><ColorModes><ColorMode>RGB24</ColorMode></ColorModes></caps>";
    let root = escl::xml::parse_document(one).expect("parse");
    let modes = root.child("ColorModes").expect("wrapper present");
    assert_eq!(modes.child_texts("ColorMode"), vec!["RGB24".to_owned()]);
    let many =
        "<caps><ColorModes><ColorMode>BlackAndWhite1</ColorMode><ColorMode>Grayscale8</ColorMode><ColorMode>RGB24</ColorMode></ColorModes></caps>";
    let root = escl::xml::parse_document(many).expect("parse");
    let modes = root.child("ColorModes").expect("wrapper present");
    assert_eq!(
        modes.child_texts("ColorMode"),
        vec!["BlackAndWhite1".to_owned(), "Grayscale8".to_owned(), "RGB24".to_owned()]
    );
    let zero = "<caps><ColorModes></ColorModes></caps>";
    let root = escl::xml::parse_document(zero).expect("parse");
    let modes = root.child("ColorModes").expect("wrapper present");
    assert_eq!(modes.child_texts("ColorMode"), Vec::<String>::new());
}

#[test]
fn test_missing_required_field_fails() {
    let xml = "<scan:ScannerCapabilities><pwg:Version>2.63</pwg:Version></scan:ScannerCapabilities>";
    assert!(ScannerCapabilities::from_xml(xml).is_err());
}

#[test]
fn test_color_selection_prefers_wide_rgb() {
    let all = ColorModes {
        color_mode: vec![ColorMode::Grayscale8, ColorMode::RGB24, ColorMode::RGB48],
    };
    assert_eq!(all.color(), Some(ColorMode::RGB48));
    let narrow = ColorModes { color_mode: vec![ColorMode::Grayscale8, ColorMode::RGB24] };
    assert_eq!(narrow.color(), Some(ColorMode::RGB24));
    let gray = ColorModes { color_mode: vec![ColorMode::Grayscale8] };
    assert_eq!(gray.color(), None);
}

#[test]
fn test_color_selection_ignores_list_order() {
    let reversed = ColorModes {
        color_mode: vec![ColorMode::RGB48, ColorMode::RGB24, ColorMode::Grayscale8],
    };
    assert_eq!(reversed.color(), Some(ColorMode::RGB48));
    let shuffled = ColorModes {
        color_mode: vec![ColorMode::RGB24, ColorMode::Grayscale8, ColorMode::RGB48],
    };
    assert_eq!(shuffled.color(), Some(ColorMode::RGB48));
}

#[test]
fn test_builder_derives_version_and_best_rgb_mode() {
    // this device advertises RGB48; the builder selects it
    let caps = ScannerCapabilities::from_xml(canon_style_document()).expect("decode");
    let settings = ScanSettings::for_device(&caps);
    assert_eq!(settings.version, "2.62");
    assert_eq!(settings.color_mode, Some(ColorMode::RGB48));
    assert_eq!(settings.intent, None);
    assert_eq!(settings.scan_regions, None);
    // this one only reaches RGB24
    let caps = ScannerCapabilities::from_xml(brother_style_document()).expect("decode");
    let settings = ScanSettings::for_device(&caps);
    assert_eq!(settings.version, "2.63");
    assert_eq!(settings.color_mode, Some(ColorMode::RGB24));
}
