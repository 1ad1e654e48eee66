//! The typed model of a device's capability document and its decoding.
//!
//! Two device quirks shape this model: a field that one vendor emits as a
//! single node and another as a repeated list is always modelled as a list
//! (zero, one or many entries), and every enumerated string field accepts an
//! unrecognized token as a vendor extension instead of failing.

use vstd::prelude::*;
use crate::util::str_eq;
use crate::xml::{
    child_text,
    child_u32,
    elems_named,
    elems_view,
    find_named,
    lemma_elems_named_snoc,
    lemma_elems_view_index,
    texts_named,
    Element,
    SpecElem,
    XmlError,
};

verus! {

broadcast use vstd::string::group_string_axioms;

/// A color mode a device advertises or a scan request selects.
#[derive(Debug, Clone, PartialEq, Eq)]
pub enum ColorMode {
    /// Binary monochrome scanning.
    BlackAndWhite1,
    /// 8-bit grayscale.
    Grayscale8,
    /// 16-bit grayscale.
    Grayscale16,
    /// 8-bit per channel RGB.
    RGB24,
    /// 16-bit per channel RGB.
    RGB48,
    /// A vendor extension token this library does not know.
    Custom(String),
}

pub ghost enum SpecColorMode {
    BlackAndWhite1,
    Grayscale8,
    Grayscale16,
    RGB24,
    RGB48,
    Custom(Seq<char>),
}

impl View for ColorMode {
    type V = SpecColorMode;

    open spec fn view(&self) -> SpecColorMode {
        match self {
            ColorMode::BlackAndWhite1 => SpecColorMode::BlackAndWhite1,
            ColorMode::Grayscale8 => SpecColorMode::Grayscale8,
            ColorMode::Grayscale16 => SpecColorMode::Grayscale16,
            ColorMode::RGB24 => SpecColorMode::RGB24,
            ColorMode::RGB48 => SpecColorMode::RGB48,
            ColorMode::Custom(s) => SpecColorMode::Custom(s@),
        }
    }
}

impl DeepView for ColorMode {
    type V = SpecColorMode;

    open spec fn deep_view(&self) -> SpecColorMode {
        self.view()
    }
}

pub open spec fn color_mode_token(m: SpecColorMode) -> Seq<char> {
    match m {
        SpecColorMode::BlackAndWhite1 => "BlackAndWhite1"@,
        SpecColorMode::Grayscale8 => "Grayscale8"@,
        SpecColorMode::Grayscale16 => "Grayscale16"@,
        SpecColorMode::RGB24 => "RGB24"@,
        SpecColorMode::RGB48 => "RGB48"@,
        SpecColorMode::Custom(s) => s,
    }
}

pub open spec fn is_color_mode_token(t: Seq<char>) -> bool {
    t == "BlackAndWhite1"@ || t == "Grayscale8"@ || t == "Grayscale16"@ || t == "RGB24"@ || t
        == "RGB48"@
}

pub open spec fn color_mode_of_token(t: Seq<char>) -> SpecColorMode {
    if t == "BlackAndWhite1"@ {
        SpecColorMode::BlackAndWhite1
    } else if t == "Grayscale8"@ {
        SpecColorMode::Grayscale8
    } else if t == "Grayscale16"@ {
        SpecColorMode::Grayscale16
    } else if t == "RGB24"@ {
        SpecColorMode::RGB24
    } else if t == "RGB48"@ {
        SpecColorMode::RGB48
    } else {
        SpecColorMode::Custom(t)
    }
}

/// A mode whose extension token, if any, is not one of the known tokens.
pub open spec fn wf_color_mode(m: SpecColorMode) -> bool {
    m matches SpecColorMode::Custom(s) ==> !is_color_mode_token(s)
}

/// Reading a written color-mode token back yields the mode it came from.
pub proof fn lemma_color_mode_token_round_trip(m: SpecColorMode)
    requires
        wf_color_mode(m),
    ensures
        color_mode_of_token(color_mode_token(m)) == m,
{
    reveal_strlit("BlackAndWhite1");
    reveal_strlit("Grayscale8");
    reveal_strlit("Grayscale16");
    reveal_strlit("RGB24");
    reveal_strlit("RGB48");
    assert("BlackAndWhite1"@.len() == 14);
    assert("Grayscale8"@.len() == 10);
    assert("Grayscale16"@.len() == 11);
    assert("RGB24"@.len() == 5);
    assert("RGB48"@.len() == 5);
    assert("RGB24"@[3] == '2');
    assert("RGB48"@[3] == '4');
}

/// Reading any token succeeds; an unrecognized one is preserved as a vendor
/// extension carrying the original string, and writing the value read from
/// any token gives that token back.
pub proof fn lemma_color_mode_of_token_total(t: Seq<char>)
    ensures
        color_mode_token(color_mode_of_token(t)) == t,
        !is_color_mode_token(t) ==> color_mode_of_token(t) == SpecColorMode::Custom(t),
{
}

impl ColorMode {
    /// The protocol token this mode is written as.
    pub fn to_token(&self) -> (r: &str)
        ensures
            r@ == color_mode_token(self@),
    {
        match self {
            ColorMode::BlackAndWhite1 => "BlackAndWhite1",
            ColorMode::Grayscale8 => "Grayscale8",
            ColorMode::Grayscale16 => "Grayscale16",
            ColorMode::RGB24 => "RGB24",
            ColorMode::RGB48 => "RGB48",
            ColorMode::Custom(s) => s.as_str(),
        }
    }

    /// Reads a protocol token; an unknown token becomes a vendor extension
    /// value rather than an error.
    pub fn from_token(t: &str) -> (r: ColorMode)
        ensures
            r@ == color_mode_of_token(t@),
    {
        if str_eq(t, "BlackAndWhite1") {
            ColorMode::BlackAndWhite1
        } else if str_eq(t, "Grayscale8") {
            ColorMode::Grayscale8
        } else if str_eq(t, "Grayscale16") {
            ColorMode::Grayscale16
        } else if str_eq(t, "RGB24") {
            ColorMode::RGB24
        } else if str_eq(t, "RGB48") {
            ColorMode::RGB48
        } else {
            ColorMode::Custom(t.to_owned())
        }
    }
}

/// The kind of original a scan contains.
#[derive(Debug, Clone, PartialEq, Eq)]
pub enum ContentType {
    Photo,
    Text,
    TextAndPhoto,
    LineArt,
    Magazine,
    Halftone,
    Auto,
    /// A vendor extension token this library does not know.
    Custom(String),
}

pub ghost enum SpecContentType {
    Photo,
    Text,
    TextAndPhoto,
    LineArt,
    Magazine,
    Halftone,
    Auto,
    Custom(Seq<char>),
}

impl View for ContentType {
    type V = SpecContentType;

    open spec fn view(&self) -> SpecContentType {
        match self {
            ContentType::Photo => SpecContentType::Photo,
            ContentType::Text => SpecContentType::Text,
            ContentType::TextAndPhoto => SpecContentType::TextAndPhoto,
            ContentType::LineArt => SpecContentType::LineArt,
            ContentType::Magazine => SpecContentType::Magazine,
            ContentType::Halftone => SpecContentType::Halftone,
            ContentType::Auto => SpecContentType::Auto,
            ContentType::Custom(s) => SpecContentType::Custom(s@),
        }
    }
}

impl DeepView for ContentType {
    type V = SpecContentType;

    open spec fn deep_view(&self) -> SpecContentType {
        self.view()
    }
}

pub open spec fn content_type_token(m: SpecContentType) -> Seq<char> {
    match m {
        SpecContentType::Photo => "Photo"@,
        SpecContentType::Text => "Text"@,
        SpecContentType::TextAndPhoto => "TextAndPhoto"@,
        SpecContentType::LineArt => "LineArt"@,
        SpecContentType::Magazine => "Magazine"@,
        SpecContentType::Halftone => "Halftone"@,
        SpecContentType::Auto => "Auto"@,
        SpecContentType::Custom(s) => s,
    }
}

pub open spec fn is_content_type_token(t: Seq<char>) -> bool {
    t == "Photo"@ || t == "Text"@ || t == "TextAndPhoto"@ || t == "LineArt"@ || t == "Magazine"@
        || t == "Halftone"@ || t == "Auto"@
}

pub open spec fn content_type_of_token(t: Seq<char>) -> SpecContentType {
    if t == "Photo"@ {
        SpecContentType::Photo
    } else if t == "Text"@ {
        SpecContentType::Text
    } else if t == "TextAndPhoto"@ {
        SpecContentType::TextAndPhoto
    } else if t == "LineArt"@ {
        SpecContentType::LineArt
    } else if t == "Magazine"@ {
        SpecContentType::Magazine
    } else if t == "Halftone"@ {
        SpecContentType::Halftone
    } else if t == "Auto"@ {
        SpecContentType::Auto
    } else {
        SpecContentType::Custom(t)
    }
}

impl ContentType {
    /// The protocol token this content type is written as.
    pub fn to_token(&self) -> (r: &str)
        ensures
            r@ == content_type_token(self@),
    {
        match self {
            ContentType::Photo => "Photo",
            ContentType::Text => "Text",
            ContentType::TextAndPhoto => "TextAndPhoto",
            ContentType::LineArt => "LineArt",
            ContentType::Magazine => "Magazine",
            ContentType::Halftone => "Halftone",
            ContentType::Auto => "Auto",
            ContentType::Custom(s) => s.as_str(),
        }
    }

    /// Reads a protocol token; an unknown token becomes a vendor extension
    /// value rather than an error.
    pub fn from_token(t: &str) -> (r: ContentType)
        ensures
            r@ == content_type_of_token(t@),
    {
        if str_eq(t, "Photo") {
            ContentType::Photo
        } else if str_eq(t, "Text") {
            ContentType::Text
        } else if str_eq(t, "TextAndPhoto") {
            ContentType::TextAndPhoto
        } else if str_eq(t, "LineArt") {
            ContentType::LineArt
        } else if str_eq(t, "Magazine") {
            ContentType::Magazine
        } else if str_eq(t, "Halftone") {
            ContentType::Halftone
        } else if str_eq(t, "Auto") {
            ContentType::Auto
        } else {
            ContentType::Custom(t.to_owned())
        }
    }
}

/// The sensor channel a scan reads from.
#[derive(Debug, Clone, PartialEq, Eq)]
pub enum CcdChannel {
    /// Use the red CCD.
    Red,
    /// Use the green CCD.
    Green,
    /// Use the blue CCD.
    Blue,
    /// A weighted combination of the three channels, optimized for photos.
    NTSC,
    /// A dedicated gray CCD array in the hardware.
    GrayCcd,
    /// An emulated gray CCD mode weighing each line evenly.
    GrayCcdEmulated,
    /// A vendor extension token this library does not know.
    Custom(String),
}

pub ghost enum SpecCcdChannel {
    Red,
    Green,
    Blue,
    NTSC,
    GrayCcd,
    GrayCcdEmulated,
    Custom(Seq<char>),
}

impl View for CcdChannel {
    type V = SpecCcdChannel;

    open spec fn view(&self) -> SpecCcdChannel {
        match self {
            CcdChannel::Red => SpecCcdChannel::Red,
            CcdChannel::Green => SpecCcdChannel::Green,
            CcdChannel::Blue => SpecCcdChannel::Blue,
            CcdChannel::NTSC => SpecCcdChannel::NTSC,
            CcdChannel::GrayCcd => SpecCcdChannel::GrayCcd,
            CcdChannel::GrayCcdEmulated => SpecCcdChannel::GrayCcdEmulated,
            CcdChannel::Custom(s) => SpecCcdChannel::Custom(s@),
        }
    }
}

impl DeepView for CcdChannel {
    type V = SpecCcdChannel;

    open spec fn deep_view(&self) -> SpecCcdChannel {
        self.view()
    }
}

pub open spec fn ccd_channel_of_token(t: Seq<char>) -> SpecCcdChannel {
    if t == "Red"@ {
        SpecCcdChannel::Red
    } else if t == "Green"@ {
        SpecCcdChannel::Green
    } else if t == "Blue"@ {
        SpecCcdChannel::Blue
    } else if t == "NTSC"@ {
        SpecCcdChannel::NTSC
    } else if t == "GrayCcd"@ {
        SpecCcdChannel::GrayCcd
    } else if t == "GrayCcdEmulated"@ {
        SpecCcdChannel::GrayCcdEmulated
    } else {
        SpecCcdChannel::Custom(t)
    }
}

impl CcdChannel {
    /// Reads a protocol token; an unknown token becomes a vendor extension
    /// value rather than an error.
    pub fn from_token(t: &str) -> (r: CcdChannel)
        ensures
            r@ == ccd_channel_of_token(t@),
    {
        if str_eq(t, "Red") {
            CcdChannel::Red
        } else if str_eq(t, "Green") {
            CcdChannel::Green
        } else if str_eq(t, "Blue") {
            CcdChannel::Blue
        } else if str_eq(t, "NTSC") {
            CcdChannel::NTSC
        } else if str_eq(t, "GrayCcd") {
            CcdChannel::GrayCcd
        } else if str_eq(t, "GrayCcdEmulated") {
            CcdChannel::GrayCcdEmulated
        } else {
            CcdChannel::Custom(t.to_owned())
        }
    }
}

/// What the scan output is intended for; guides device-side processing.
#[derive(Debug, Clone, PartialEq, Eq)]
pub enum ScanIntent {
    /// Scanning optimized for text.
    Document,
    /// A composite document with mixed text, graphic and photo content.
    TextAndGraphic,
    /// Scanning optimized for photos.
    Photo,
    /// Scanning optimized for fast output.
    Preview,
    /// Scanning optimized for objects with depth.
    Object,
    /// Scanning optimized for a business card.
    BusinessCard,
    /// A vendor extension token this library does not know.
    Custom(String),
}

pub ghost enum SpecScanIntent {
    Document,
    TextAndGraphic,
    Photo,
    Preview,
    Object,
    BusinessCard,
    Custom(Seq<char>),
}

impl View for ScanIntent {
    type V = SpecScanIntent;

    open spec fn view(&self) -> SpecScanIntent {
        match self {
            ScanIntent::Document => SpecScanIntent::Document,
            ScanIntent::TextAndGraphic => SpecScanIntent::TextAndGraphic,
            ScanIntent::Photo => SpecScanIntent::Photo,
            ScanIntent::Preview => SpecScanIntent::Preview,
            ScanIntent::Object => SpecScanIntent::Object,
            ScanIntent::BusinessCard => SpecScanIntent::BusinessCard,
            ScanIntent::Custom(s) => SpecScanIntent::Custom(s@),
        }
    }
}

impl DeepView for ScanIntent {
    type V = SpecScanIntent;

    open spec fn deep_view(&self) -> SpecScanIntent {
        self.view()
    }
}

pub open spec fn scan_intent_token(m: SpecScanIntent) -> Seq<char> {
    match m {
        SpecScanIntent::Document => "Document"@,
        SpecScanIntent::TextAndGraphic => "TextAndGraphic"@,
        SpecScanIntent::Photo => "Photo"@,
        SpecScanIntent::Preview => "Preview"@,
        SpecScanIntent::Object => "Object"@,
        SpecScanIntent::BusinessCard => "BusinessCard"@,
        SpecScanIntent::Custom(s) => s,
    }
}

pub open spec fn is_scan_intent_token(t: Seq<char>) -> bool {
    t == "Document"@ || t == "TextAndGraphic"@ || t == "Photo"@ || t == "Preview"@ || t
        == "Object"@ || t == "BusinessCard"@
}

pub open spec fn scan_intent_of_token(t: Seq<char>) -> SpecScanIntent {
    if t == "Document"@ {
        SpecScanIntent::Document
    } else if t == "TextAndGraphic"@ {
        SpecScanIntent::TextAndGraphic
    } else if t == "Photo"@ {
        SpecScanIntent::Photo
    } else if t == "Preview"@ {
        SpecScanIntent::Preview
    } else if t == "Object"@ {
        SpecScanIntent::Object
    } else if t == "BusinessCard"@ {
        SpecScanIntent::BusinessCard
    } else {
        SpecScanIntent::Custom(t)
    }
}

/// An intent whose extension token, if any, is not one of the known tokens.
pub open spec fn wf_scan_intent(m: SpecScanIntent) -> bool {
    m matches SpecScanIntent::Custom(s) ==> !is_scan_intent_token(s)
}

/// Reading a written intent token back yields the intent it came from.
pub proof fn lemma_scan_intent_token_round_trip(m: SpecScanIntent)
    requires
        wf_scan_intent(m),
    ensures
        scan_intent_of_token(scan_intent_token(m)) == m,
{
    reveal_strlit("Document");
    reveal_strlit("TextAndGraphic");
    reveal_strlit("Photo");
    reveal_strlit("Preview");
    reveal_strlit("Object");
    reveal_strlit("BusinessCard");
    assert("Document"@.len() == 8);
    assert("TextAndGraphic"@.len() == 14);
    assert("Photo"@.len() == 5);
    assert("Preview"@.len() == 7);
    assert("Object"@.len() == 6);
    assert("BusinessCard"@.len() == 12);
}

impl ScanIntent {
    /// The protocol token this intent is written as.
    pub fn to_token(&self) -> (r: &str)
        ensures
            r@ == scan_intent_token(self@),
    {
        match self {
            ScanIntent::Document => "Document",
            ScanIntent::TextAndGraphic => "TextAndGraphic",
            ScanIntent::Photo => "Photo",
            ScanIntent::Preview => "Preview",
            ScanIntent::Object => "Object",
            ScanIntent::BusinessCard => "BusinessCard",
            ScanIntent::Custom(s) => s.as_str(),
        }
    }

    /// Reads a protocol token; an unknown token becomes a vendor extension
    /// value rather than an error.
    pub fn from_token(t: &str) -> (r: ScanIntent)
        ensures
            r@ == scan_intent_of_token(t@),
    {
        if str_eq(t, "Document") {
            ScanIntent::Document
        } else if str_eq(t, "TextAndGraphic") {
            ScanIntent::TextAndGraphic
        } else if str_eq(t, "Photo") {
            ScanIntent::Photo
        } else if str_eq(t, "Preview") {
            ScanIntent::Preview
        } else if str_eq(t, "Object") {
            ScanIntent::Object
        } else if str_eq(t, "BusinessCard") {
            ScanIntent::BusinessCard
        } else {
            ScanIntent::Custom(t.to_owned())
        }
    }
}

/// One certification a device reports.
#[derive(Debug, Clone, PartialEq, Eq)]
pub struct Certification {
    pub name: String,
    pub version: String,
}

pub ghost struct SpecCertification {
    pub name: Seq<char>,
    pub version: Seq<char>,
}

impl View for Certification {
    type V = SpecCertification;

    open spec fn view(&self) -> SpecCertification {
        SpecCertification { name: self.name@, version: self.version@ }
    }
}

impl DeepView for Certification {
    type V = SpecCertification;

    open spec fn deep_view(&self) -> SpecCertification {
        self.view()
    }
}

/// The certifications a device reports; absent on many devices.
#[derive(Debug, Default, Clone, PartialEq, Eq)]
pub struct Certifications {
    pub certification: Vec<Certification>,
}

pub ghost struct SpecCertifications {
    pub certification: Seq<SpecCertification>,
}

impl View for Certifications {
    type V = SpecCertifications;

    open spec fn view(&self) -> SpecCertifications {
        SpecCertifications { certification: self.certification.deep_view() }
    }
}

impl Certifications {
    pub fn is_empty(&self) -> (r: bool)
        ensures
            r == (self@.certification.len() == 0),
    {
        self.certification.len() == 0
    }
}

/// The color modes one setting profile supports.
#[derive(Debug, Clone, PartialEq, Eq)]
pub struct ColorModes {
    pub color_mode: Vec<ColorMode>,
}

pub ghost struct SpecColorModes {
    pub color_mode: Seq<SpecColorMode>,
}

impl View for ColorModes {
    type V = SpecColorModes;

    open spec fn view(&self) -> SpecColorModes {
        SpecColorModes { color_mode: self.color_mode.deep_view() }
    }
}

/// The content types one setting profile supports.
#[derive(Debug, Default, Clone, PartialEq, Eq)]
pub struct ContentTypes {
    pub content_type: Vec<ContentType>,
}

pub ghost struct SpecContentTypes {
    pub content_type: Seq<SpecContentType>,
}

impl View for ContentTypes {
    type V = SpecContentTypes;

    open spec fn view(&self) -> SpecContentTypes {
        SpecContentTypes { content_type: self.content_type.deep_view() }
    }
}

impl ContentTypes {
    pub fn is_empty(&self) -> (r: bool)
        ensures
            r == (self@.content_type.len() == 0),
    {
        self.content_type.len() == 0
    }
}

/// The output document formats one setting profile supports.
#[derive(Debug, Clone, PartialEq, Eq)]
pub struct DocumentFormats {
    pub document_format: Vec<String>,
    pub document_format_ext: Vec<String>,
}

pub ghost struct SpecDocumentFormats {
    pub document_format: Seq<Seq<char>>,
    pub document_format_ext: Seq<Seq<char>>,
}

impl View for DocumentFormats {
    type V = SpecDocumentFormats;

    open spec fn view(&self) -> SpecDocumentFormats {
        SpecDocumentFormats {
            document_format: self.document_format.deep_view(),
            document_format_ext: self.document_format_ext.deep_view(),
        }
    }
}

/// One discrete resolution pair a device offers.
#[derive(Debug, Clone, PartialEq, Eq)]
pub struct DiscreteResolution {
    pub x_resolution: u32,
    pub y_resolution: u32,
}

pub ghost struct SpecDiscreteResolution {
    pub x_resolution: u32,
    pub y_resolution: u32,
}

impl View for DiscreteResolution {
    type V = SpecDiscreteResolution;

    open spec fn view(&self) -> SpecDiscreteResolution {
        SpecDiscreteResolution {
            x_resolution: self.x_resolution,
            y_resolution: self.y_resolution,
        }
    }
}

impl DeepView for DiscreteResolution {
    type V = SpecDiscreteResolution;

    open spec fn deep_view(&self) -> SpecDiscreteResolution {
        self.view()
    }
}

/// The discrete resolutions one setting profile offers.
#[derive(Debug, Clone, PartialEq, Eq)]
pub struct DiscreteResolutions {
    pub discrete_resolution: Vec<DiscreteResolution>,
}

pub ghost struct SpecDiscreteResolutions {
    pub discrete_resolution: Seq<SpecDiscreteResolution>,
}

impl View for DiscreteResolutions {
    type V = SpecDiscreteResolutions;

    open spec fn view(&self) -> SpecDiscreteResolutions {
        SpecDiscreteResolutions { discrete_resolution: self.discrete_resolution.deep_view() }
    }
}

/// The resolutions one setting profile supports.
#[derive(Debug, Clone, PartialEq, Eq)]
pub struct SupportedResolutions {
    pub discrete_resolutions: DiscreteResolutions,
}

pub ghost struct SpecSupportedResolutions {
    pub discrete_resolutions: SpecDiscreteResolutions,
}

impl View for SupportedResolutions {
    type V = SpecSupportedResolutions;

    open spec fn view(&self) -> SpecSupportedResolutions {
        SpecSupportedResolutions { discrete_resolutions: self.discrete_resolutions@ }
    }
}

/// The color spaces one setting profile supports.
#[derive(Debug, Clone, PartialEq, Eq)]
pub struct ColorSpaces {
    pub color_space: Vec<String>,
}

pub ghost struct SpecColorSpaces {
    pub color_space: Seq<Seq<char>>,
}

impl View for ColorSpaces {
    type V = SpecColorSpaces;

    open spec fn view(&self) -> SpecColorSpaces {
        SpecColorSpaces { color_space: self.color_space.deep_view() }
    }
}

/// The sensor channels one setting profile supports.
#[derive(Debug, Clone, PartialEq, Eq)]
pub struct CcdChannels {
    pub ccd_channel: Vec<CcdChannel>,
}

pub ghost struct SpecCcdChannels {
    pub ccd_channel: Seq<SpecCcdChannel>,
}

impl View for CcdChannels {
    type V = SpecCcdChannels;

    open spec fn view(&self) -> SpecCcdChannels {
        SpecCcdChannels { ccd_channel: self.ccd_channel.deep_view() }
    }
}

/// The scan intents an input source supports.
#[derive(Debug, Clone, PartialEq, Eq)]
pub struct SupportedIntents {
    pub intent: Vec<ScanIntent>,
}

pub ghost struct SpecSupportedIntents {
    pub intent: Seq<SpecScanIntent>,
}

impl View for SupportedIntents {
    type V = SpecSupportedIntents;

    open spec fn view(&self) -> SpecSupportedIntents {
        SpecSupportedIntents { intent: self.intent.deep_view() }
    }
}

/// One setting profile: which modes, formats, resolutions, spaces and
/// channels may be combined.
#[derive(Debug, Clone, PartialEq, Eq)]
pub struct SettingProfile {
    pub color_modes: ColorModes,
    pub content_types: ContentTypes,
    pub document_formats: DocumentFormats,
    pub supported_resolutions: SupportedResolutions,
    pub color_spaces: ColorSpaces,
    pub ccd_channels: CcdChannels,
}

pub ghost struct SpecSettingProfile {
    pub color_modes: SpecColorModes,
    pub content_types: SpecContentTypes,
    pub document_formats: SpecDocumentFormats,
    pub supported_resolutions: SpecSupportedResolutions,
    pub color_spaces: SpecColorSpaces,
    pub ccd_channels: SpecCcdChannels,
}

impl View for SettingProfile {
    type V = SpecSettingProfile;

    open spec fn view(&self) -> SpecSettingProfile {
        SpecSettingProfile {
            color_modes: self.color_modes@,
            content_types: self.content_types@,
            document_formats: self.document_formats@,
            supported_resolutions: self.supported_resolutions@,
            color_spaces: self.color_spaces@,
            ccd_channels: self.ccd_channels@,
        }
    }
}

/// The profile container of an input source.
#[derive(Debug, Clone, PartialEq, Eq)]
pub struct SettingProfiles {
    pub setting_profile: SettingProfile,
}

pub ghost struct SpecSettingProfiles {
    pub setting_profile: SpecSettingProfile,
}

impl View for SettingProfiles {
    type V = SpecSettingProfiles;

    open spec fn view(&self) -> SpecSettingProfiles {
        SpecSettingProfiles { setting_profile: self.setting_profile@ }
    }
}

/// What the flatbed input source supports.
#[derive(Debug, Clone, PartialEq, Eq)]
pub struct PlatenInputCaps {
    pub min_width: u32,
    pub max_width: u32,
    pub min_height: u32,
    pub max_height: u32,
    pub max_scan_regions: u32,
    pub setting_profiles: SettingProfiles,
    pub supported_intents: SupportedIntents,
    pub max_optical_x_resolution: u32,
    pub max_optical_y_resolution: u32,
    pub risky_left_margin: u32,
    pub risky_right_margin: u32,
    pub risky_top_margin: u32,
    pub risky_bottom_margin: u32,
}

pub ghost struct SpecPlatenInputCaps {
    pub min_width: u32,
    pub max_width: u32,
    pub min_height: u32,
    pub max_height: u32,
    pub max_scan_regions: u32,
    pub setting_profiles: SpecSettingProfiles,
    pub supported_intents: SpecSupportedIntents,
    pub max_optical_x_resolution: u32,
    pub max_optical_y_resolution: u32,
    pub risky_left_margin: u32,
    pub risky_right_margin: u32,
    pub risky_top_margin: u32,
    pub risky_bottom_margin: u32,
}

impl View for PlatenInputCaps {
    type V = SpecPlatenInputCaps;

    open spec fn view(&self) -> SpecPlatenInputCaps {
        SpecPlatenInputCaps {
            min_width: self.min_width,
            max_width: self.max_width,
            min_height: self.min_height,
            max_height: self.max_height,
            max_scan_regions: self.max_scan_regions,
            setting_profiles: self.setting_profiles@,
            supported_intents: self.supported_intents@,
            max_optical_x_resolution: self.max_optical_x_resolution,
            max_optical_y_resolution: self.max_optical_y_resolution,
            risky_left_margin: self.risky_left_margin,
            risky_right_margin: self.risky_right_margin,
            risky_top_margin: self.risky_top_margin,
            risky_bottom_margin: self.risky_bottom_margin,
        }
    }
}

/// The flatbed input source.
#[derive(Debug, Clone, PartialEq, Eq)]
pub struct Platen {
    pub platen_input_caps: PlatenInputCaps,
}

pub ghost struct SpecPlaten {
    pub platen_input_caps: SpecPlatenInputCaps,
}

impl View for Platen {
    type V = SpecPlaten;

    open spec fn view(&self) -> SpecPlaten {
        SpecPlaten { platen_input_caps: self.platen_input_caps@ }
    }
}

/// The device's supported range for a stepped numeric setting.
#[derive(Debug, Clone, PartialEq, Eq)]
pub struct CompressionFactorSupport {
    pub min: u32,
    pub max: u32,
    pub normal: u32,
    pub step: u32,
}

pub ghost struct SpecCompressionFactorSupport {
    pub min: u32,
    pub max: u32,
    pub normal: u32,
    pub step: u32,
}

impl View for CompressionFactorSupport {
    type V = SpecCompressionFactorSupport;

    open spec fn view(&self) -> SpecCompressionFactorSupport {
        SpecCompressionFactorSupport {
            min: self.min,
            max: self.max,
            normal: self.normal,
            step: self.step,
        }
    }
}

impl DeepView for CompressionFactorSupport {
    type V = SpecCompressionFactorSupport;

    open spec fn deep_view(&self) -> SpecCompressionFactorSupport {
        self.view()
    }
}

/// The media types a device supports; absent on many devices.
#[derive(Debug, Default, Clone, PartialEq, Eq)]
pub struct SupportedMediaTypes {
    pub media_type: Vec<String>,
}

pub ghost struct SpecSupportedMediaTypes {
    pub media_type: Seq<Seq<char>>,
}

impl View for SupportedMediaTypes {
    type V = SpecSupportedMediaTypes;

    open spec fn view(&self) -> SpecSupportedMediaTypes {
        SpecSupportedMediaTypes { media_type: self.media_type.deep_view() }
    }
}

impl SupportedMediaTypes {
    pub fn is_empty(&self) -> (r: bool)
        ensures
            r == (self@.media_type.len() == 0),
    {
        self.media_type.len() == 0
    }
}

/// The device's supported sharpening range.
#[derive(Debug, Clone, PartialEq, Eq)]
pub struct SharpenSupport {
    pub min: u32,
    pub max: u32,
    pub normal: u32,
    pub step: u32,
}

pub ghost struct SpecSharpenSupport {
    pub min: u32,
    pub max: u32,
    pub normal: u32,
    pub step: u32,
}

impl View for SharpenSupport {
    type V = SpecSharpenSupport;

    open spec fn view(&self) -> SpecSharpenSupport {
        SpecSharpenSupport { min: self.min, max: self.max, normal: self.normal, step: self.step }
    }
}

impl DeepView for SharpenSupport {
    type V = SpecSharpenSupport;

    open spec fn deep_view(&self) -> SpecSharpenSupport {
        self.view()
    }
}

/// An immutable snapshot of everything a device says it can do.
#[derive(Debug, Clone, PartialEq, Eq)]
pub struct ScannerCapabilities {
    pub version: String,
    pub make_and_model: String,
    pub manufacturer: Option<String>,
    pub serial_number: String,
    pub uuid: String,
    pub admin_uri: String,
    pub icon_uri: String,
    pub certifications: Certifications,
    pub platen: Platen,
    pub compression_factor_support: Option<CompressionFactorSupport>,
    pub supported_media_types: SupportedMediaTypes,
    pub sharpen_support: Option<SharpenSupport>,
}

pub ghost struct SpecScannerCapabilities {
    pub version: Seq<char>,
    pub make_and_model: Seq<char>,
    pub manufacturer: Option<Seq<char>>,
    pub serial_number: Seq<char>,
    pub uuid: Seq<char>,
    pub admin_uri: Seq<char>,
    pub icon_uri: Seq<char>,
    pub certifications: SpecCertifications,
    pub platen: SpecPlaten,
    pub compression_factor_support: Option<SpecCompressionFactorSupport>,
    pub supported_media_types: SpecSupportedMediaTypes,
    pub sharpen_support: Option<SpecSharpenSupport>,
}

impl View for ScannerCapabilities {
    type V = SpecScannerCapabilities;

    open spec fn view(&self) -> SpecScannerCapabilities {
        SpecScannerCapabilities {
            version: self.version@,
            make_and_model: self.make_and_model@,
            manufacturer: self.manufacturer.deep_view(),
            serial_number: self.serial_number@,
            uuid: self.uuid@,
            admin_uri: self.admin_uri@,
            icon_uri: self.icon_uri@,
            certifications: self.certifications@,
            platen: self.platen@,
            compression_factor_support: self.compression_factor_support.deep_view(),
            supported_media_types: self.supported_media_types@,
            sharpen_support: self.sharpen_support.deep_view(),
        }
    }
}

pub open spec fn color_modes_of_texts(ts: Seq<Seq<char>>) -> Seq<SpecColorMode>
    decreases ts.len(),
{
    if ts.len() == 0 {
        Seq::empty()
    } else {
        color_modes_of_texts(ts.drop_last()).push(color_mode_of_token(ts.last()))
    }
}

pub open spec fn content_types_of_texts(ts: Seq<Seq<char>>) -> Seq<SpecContentType>
    decreases ts.len(),
{
    if ts.len() == 0 {
        Seq::empty()
    } else {
        content_types_of_texts(ts.drop_last()).push(content_type_of_token(ts.last()))
    }
}

pub open spec fn ccd_channels_of_texts(ts: Seq<Seq<char>>) -> Seq<SpecCcdChannel>
    decreases ts.len(),
{
    if ts.len() == 0 {
        Seq::empty()
    } else {
        ccd_channels_of_texts(ts.drop_last()).push(ccd_channel_of_token(ts.last()))
    }
}

pub open spec fn scan_intents_of_texts(ts: Seq<Seq<char>>) -> Seq<SpecScanIntent>
    decreases ts.len(),
{
    if ts.len() == 0 {
        Seq::empty()
    } else {
        scan_intents_of_texts(ts.drop_last()).push(scan_intent_of_token(ts.last()))
    }
}

pub open spec fn spec_decode_color_modes(e: SpecElem) -> SpecColorModes {
    SpecColorModes { color_mode: color_modes_of_texts(texts_named(e.children, "ColorMode"@)) }
}

pub open spec fn spec_decode_content_types(e: SpecElem) -> SpecContentTypes {
    SpecContentTypes {
        content_type: content_types_of_texts(texts_named(e.children, "ContentType"@)),
    }
}

pub open spec fn spec_decode_ccd_channels(e: SpecElem) -> SpecCcdChannels {
    SpecCcdChannels { ccd_channel: ccd_channels_of_texts(texts_named(e.children, "CcdChannel"@)) }
}

pub open spec fn spec_decode_supported_intents(e: SpecElem) -> SpecSupportedIntents {
    SpecSupportedIntents { intent: scan_intents_of_texts(texts_named(e.children, "Intent"@)) }
}

pub open spec fn spec_decode_document_formats(e: SpecElem) -> SpecDocumentFormats {
    SpecDocumentFormats {
        document_format: texts_named(e.children, "DocumentFormat"@),
        document_format_ext: texts_named(e.children, "DocumentFormatExt"@),
    }
}

pub open spec fn spec_decode_certification(e: SpecElem) -> Option<SpecCertification> {
    match child_text(e, "Name"@) {
        None => None,
        Some(n) => match child_text(e, "Version"@) {
            None => None,
            Some(v) => Some(SpecCertification { name: n, version: v }),
        },
    }
}

pub open spec fn spec_decode_cert_list(cs: Seq<SpecElem>) -> Option<Seq<SpecCertification>>
    decreases cs.len(),
{
    if cs.len() == 0 {
        Some(Seq::empty())
    } else {
        match spec_decode_cert_list(cs.drop_last()) {
            None => None,
            Some(p) => match spec_decode_certification(cs.last()) {
                None => None,
                Some(c) => Some(p.push(c)),
            },
        }
    }
}

pub open spec fn spec_decode_certifications(e: SpecElem) -> Option<SpecCertifications> {
    match spec_decode_cert_list(elems_named(e.children, "Certification"@)) {
        None => None,
        Some(l) => Some(SpecCertifications { certification: l }),
    }
}

pub open spec fn spec_decode_resolution(e: SpecElem) -> Option<SpecDiscreteResolution> {
    match child_u32(e, "XResolution"@) {
        None => None,
        Some(x) => match child_u32(e, "YResolution"@) {
            None => None,
            Some(y) => Some(SpecDiscreteResolution { x_resolution: x, y_resolution: y }),
        },
    }
}

pub open spec fn spec_decode_res_list(cs: Seq<SpecElem>) -> Option<Seq<SpecDiscreteResolution>>
    decreases cs.len(),
{
    if cs.len() == 0 {
        Some(Seq::empty())
    } else {
        match spec_decode_res_list(cs.drop_last()) {
            None => None,
            Some(p) => match spec_decode_resolution(cs.last()) {
                None => None,
                Some(c) => Some(p.push(c)),
            },
        }
    }
}

pub open spec fn spec_decode_discrete_resolutions(e: SpecElem) -> Option<SpecDiscreteResolutions> {
    match spec_decode_res_list(elems_named(e.children, "DiscreteResolution"@)) {
        None => None,
        Some(l) => Some(SpecDiscreteResolutions { discrete_resolution: l }),
    }
}

pub open spec fn spec_decode_supported_resolutions(e: SpecElem) -> Option<
    SpecSupportedResolutions,
> {
    match find_named(e.children, "DiscreteResolutions"@) {
        None => None,
        Some(dr) => match spec_decode_discrete_resolutions(dr) {
            None => None,
            Some(l) => Some(SpecSupportedResolutions { discrete_resolutions: l }),
        },
    }
}

pub open spec fn spec_decode_setting_profile(e: SpecElem) -> Option<SpecSettingProfile> {
    match find_named(e.children, "ColorModes"@) {
        None => None,
        Some(cm) => match find_named(e.children, "DocumentFormats"@) {
            None => None,
            Some(df) => match find_named(e.children, "SupportedResolutions"@) {
                None => None,
                Some(sr) => match spec_decode_supported_resolutions(sr) {
                    None => None,
                    Some(res) => match find_named(e.children, "ColorSpaces"@) {
                        None => None,
                        Some(cs) => match find_named(e.children, "CcdChannels"@) {
                            None => None,
                            Some(cc) => Some(
                                SpecSettingProfile {
                                    color_modes: spec_decode_color_modes(cm),
                                    content_types: match find_named(e.children, "ContentTypes"@) {
                                        None => SpecContentTypes { content_type: Seq::empty() },
                                        Some(ct) => spec_decode_content_types(ct),
                                    },
                                    document_formats: spec_decode_document_formats(df),
                                    supported_resolutions: res,
                                    color_spaces: SpecColorSpaces {
                                        color_space: texts_named(cs.children, "ColorSpace"@),
                                    },
                                    ccd_channels: spec_decode_ccd_channels(cc),
                                },
                            ),
                        },
                    },
                },
            },
        },
    }
}

pub open spec fn spec_decode_setting_profiles(e: SpecElem) -> Option<SpecSettingProfiles> {
    match find_named(e.children, "SettingProfile"@) {
        None => None,
        Some(sp) => match spec_decode_setting_profile(sp) {
            None => None,
            Some(p) => Some(SpecSettingProfiles { setting_profile: p }),
        },
    }
}

pub open spec fn spec_decode_input_caps(e: SpecElem) -> Option<SpecPlatenInputCaps> {
    match child_u32(e, "MinWidth"@) {
        None => None,
        Some(min_width) => match child_u32(e, "MaxWidth"@) {
            None => None,
            Some(max_width) => match child_u32(e, "MinHeight"@) {
                None => None,
                Some(min_height) => match child_u32(e, "MaxHeight"@) {
                    None => None,
                    Some(max_height) => match child_u32(e, "MaxScanRegions"@) {
                        None => None,
                        Some(max_scan_regions) => match find_named(
                            e.children,
                            "SettingProfiles"@,
                        ) {
                            None => None,
                            Some(sps) => match spec_decode_setting_profiles(sps) {
                                None => None,
                                Some(setting_profiles) => match find_named(
                                    e.children,
                                    "SupportedIntents"@,
                                ) {
                                    None => None,
                                    Some(si) => match child_u32(e, "MaxOpticalXResolution"@) {
                                        None => None,
                                        Some(mox) => match child_u32(
                                            e,
                                            "MaxOpticalYResolution"@,
                                        ) {
                                            None => None,
                                            Some(moy) => match child_u32(e, "RiskyLeftMargin"@) {
                                                None => None,
                                                Some(rl) => match child_u32(
                                                    e,
                                                    "RiskyRightMargin"@,
                                                ) {
                                                    None => None,
                                                    Some(rr) => match child_u32(
                                                        e,
                                                        "RiskyTopMargin"@,
                                                    ) {
                                                        None => None,
                                                        Some(rt) => match child_u32(
                                                            e,
                                                            "RiskyBottomMargin"@,
                                                        ) {
                                                            None => None,
                                                            Some(rb) => Some(
                                                                SpecPlatenInputCaps {
                                                                    min_width,
                                                                    max_width,
                                                                    min_height,
                                                                    max_height,
                                                                    max_scan_regions,
                                                                    setting_profiles,
                                                                    supported_intents:
                                                                        spec_decode_supported_intents(
                                                                        si,
                                                                    ),
                                                                    max_optical_x_resolution: mox,
                                                                    max_optical_y_resolution: moy,
                                                                    risky_left_margin: rl,
                                                                    risky_right_margin: rr,
                                                                    risky_top_margin: rt,
                                                                    risky_bottom_margin: rb,
                                                                },
                                                            ),
                                                        },
                                                    },
                                                },
                                            },
                                        },
                                    },
                                },
                            },
                        },
                    },
                },
            },
        },
    }
}

pub open spec fn spec_decode_platen(e: SpecElem) -> Option<SpecPlaten> {
    match find_named(e.children, "PlatenInputCaps"@) {
        None => None,
        Some(ic) => match spec_decode_input_caps(ic) {
            None => None,
            Some(caps) => Some(SpecPlaten { platen_input_caps: caps }),
        },
    }
}

pub open spec fn spec_decode_compression(e: SpecElem) -> Option<SpecCompressionFactorSupport> {
    match child_u32(e, "Min"@) {
        None => None,
        Some(min) => match child_u32(e, "Max"@) {
            None => None,
            Some(max) => match child_u32(e, "Normal"@) {
                None => None,
                Some(normal) => match child_u32(e, "Step"@) {
                    None => None,
                    Some(step) => Some(SpecCompressionFactorSupport { min, max, normal, step }),
                },
            },
        },
    }
}

pub open spec fn spec_decode_sharpen(e: SpecElem) -> Option<SpecSharpenSupport> {
    match child_u32(e, "Min"@) {
        None => None,
        Some(min) => match child_u32(e, "Max"@) {
            None => None,
            Some(max) => match child_u32(e, "Normal"@) {
                None => None,
                Some(normal) => match child_u32(e, "Step"@) {
                    None => None,
                    Some(step) => Some(SpecSharpenSupport { min, max, normal, step }),
                },
            },
        },
    }
}

/// What decoding a capability document's root element yields: `None` exactly
/// when a required element is missing or a numeric field does not parse;
/// unknown elements are ignored and absent optional parts decode to their
/// empty or absent value.
pub open spec fn spec_decode_caps(e: SpecElem) -> Option<SpecScannerCapabilities> {
    match child_text(e, "Version"@) {
        None => None,
        Some(version) => match child_text(e, "MakeAndModel"@) {
            None => None,
            Some(make_and_model) => match child_text(e, "SerialNumber"@) {
                None => None,
                Some(serial_number) => match child_text(e, "UUID"@) {
                    None => None,
                    Some(uuid) => match child_text(e, "AdminURI"@) {
                        None => None,
                        Some(admin_uri) => match child_text(e, "IconURI"@) {
                            None => None,
                            Some(icon_uri) => match (match find_named(
                                e.children,
                                "Certifications"@,
                            ) {
                                None => Some(SpecCertifications { certification: Seq::empty() }),
                                Some(c) => spec_decode_certifications(c),
                            }) {
                                None => None,
                                Some(certifications) => match find_named(e.children, "Platen"@) {
                                    None => None,
                                    Some(p) => match spec_decode_platen(p) {
                                        None => None,
                                        Some(platen) => match (match find_named(
                                            e.children,
                                            "CompressionFactorSupport"@,
                                        ) {
                                            None => Some(None),
                                            Some(c) => match spec_decode_compression(c) {
                                                None => None,
                                                Some(v) => Some(Some(v)),
                                            },
                                        }) {
                                            None => None,
                                            Some(compression_factor_support) => match (match
                                                find_named(e.children, "SharpenSupport"@) {
                                                None => Some(None),
                                                Some(c) => match spec_decode_sharpen(c) {
                                                    None => None,
                                                    Some(v) => Some(Some(v)),
                                                },
                                            }) {
                                                None => None,
                                                Some(sharpen_support) => Some(
                                                    SpecScannerCapabilities {
                                                        version,
                                                        make_and_model,
                                                        manufacturer: child_text(
                                                            e,
                                                            "Manufacturer"@,
                                                        ),
                                                        serial_number,
                                                        uuid,
                                                        admin_uri,
                                                        icon_uri,
                                                        certifications,
                                                        platen,
                                                        compression_factor_support,
                                                        supported_media_types: match find_named(
                                                            e.children,
                                                            "SupportedMediaTypes"@,
                                                        ) {
                                                            None => SpecSupportedMediaTypes {
                                                                media_type: Seq::empty(),
                                                            },
                                                            Some(mt) => SpecSupportedMediaTypes {
                                                                media_type: texts_named(
                                                                    mt.children,
                                                                    "MediaType"@,
                                                                ),
                                                            },
                                                        },
                                                        sharpen_support,
                                                    },
                                                ),
                                            },
                                        },
                                    },
                                },
                            },
                        },
                    },
                },
            },
        },
    }
}

/// Decoding a capability document from its text: parse, then decode the root.
pub open spec fn spec_caps_from_str(s: Seq<char>) -> Option<SpecScannerCapabilities> {
    match crate::xml::spec_parse_document(s) {
        None => None,
        Some(root) => spec_decode_caps(root),
    }
}

fn decode_color_modes(e: &Element) -> (r: ColorModes)
    ensures
        r@ == spec_decode_color_modes(e@),
{
    let ts = e.child_texts("ColorMode");
    let ghost texts = ts.deep_view();
    let mut out: Vec<ColorMode> = Vec::new();
    let mut i: usize = 0;
    proof {
        assert(texts.take(0) =~= Seq::<Seq<char>>::empty());
        assert(out.deep_view() =~~= color_modes_of_texts(texts.take(0)));
    }
    while i < ts.len()
        invariant
            i <= ts.len(),
            texts == ts.deep_view(),
            texts.len() == ts.len(),
            out.deep_view() == color_modes_of_texts(texts.take(i as int)),
        decreases ts.len() - i,
    {
        proof {
            assert(texts[i as int] == ts@[i as int]@);
        }
        let m = ColorMode::from_token(ts[i].as_str());
        let ghost prev = out;
        out.push(m);
        proof {
            crate::util::lemma_deep_view_push(out, prev, m);
            assert(texts.take(i as int + 1) =~= texts.take(i as int).push(texts[i as int]));
            assert(texts.take(i as int + 1).drop_last() =~= texts.take(i as int));
            assert(out.deep_view() == color_modes_of_texts(texts.take(i as int + 1)));
        }
        i += 1;
    }
    proof {
        assert(texts.take(ts.len() as int) =~= texts);
    }
    ColorModes { color_mode: out }
}

fn decode_content_types(e: &Element) -> (r: ContentTypes)
    ensures
        r@ == spec_decode_content_types(e@),
{
    let ts = e.child_texts("ContentType");
    let ghost texts = ts.deep_view();
    let mut out: Vec<ContentType> = Vec::new();
    let mut i: usize = 0;
    proof {
        assert(texts.take(0) =~= Seq::<Seq<char>>::empty());
        assert(out.deep_view() =~~= content_types_of_texts(texts.take(0)));
    }
    while i < ts.len()
        invariant
            i <= ts.len(),
            texts == ts.deep_view(),
            texts.len() == ts.len(),
            out.deep_view() == content_types_of_texts(texts.take(i as int)),
        decreases ts.len() - i,
    {
        proof {
            assert(texts[i as int] == ts@[i as int]@);
        }
        let m = ContentType::from_token(ts[i].as_str());
        let ghost prev = out;
        out.push(m);
        proof {
            crate::util::lemma_deep_view_push(out, prev, m);
            assert(texts.take(i as int + 1) =~= texts.take(i as int).push(texts[i as int]));
            assert(texts.take(i as int + 1).drop_last() =~= texts.take(i as int));
            assert(out.deep_view() == content_types_of_texts(texts.take(i as int + 1)));
        }
        i += 1;
    }
    proof {
        assert(texts.take(ts.len() as int) =~= texts);
    }
    ContentTypes { content_type: out }
}

fn decode_ccd_channels(e: &Element) -> (r: CcdChannels)
    ensures
        r@ == spec_decode_ccd_channels(e@),
{
    let ts = e.child_texts("CcdChannel");
    let ghost texts = ts.deep_view();
    let mut out: Vec<CcdChannel> = Vec::new();
    let mut i: usize = 0;
    proof {
        assert(texts.take(0) =~= Seq::<Seq<char>>::empty());
        assert(out.deep_view() =~~= ccd_channels_of_texts(texts.take(0)));
    }
    while i < ts.len()
        invariant
            i <= ts.len(),
            texts == ts.deep_view(),
            texts.len() == ts.len(),
            out.deep_view() == ccd_channels_of_texts(texts.take(i as int)),
        decreases ts.len() - i,
    {
        proof {
            assert(texts[i as int] == ts@[i as int]@);
        }
        let m = CcdChannel::from_token(ts[i].as_str());
        let ghost prev = out;
        out.push(m);
        proof {
            crate::util::lemma_deep_view_push(out, prev, m);
            assert(texts.take(i as int + 1) =~= texts.take(i as int).push(texts[i as int]));
            assert(texts.take(i as int + 1).drop_last() =~= texts.take(i as int));
            assert(out.deep_view() == ccd_channels_of_texts(texts.take(i as int + 1)));
        }
        i += 1;
    }
    proof {
        assert(texts.take(ts.len() as int) =~= texts);
    }
    CcdChannels { ccd_channel: out }
}

fn decode_supported_intents(e: &Element) -> (r: SupportedIntents)
    ensures
        r@ == spec_decode_supported_intents(e@),
{
    let ts = e.child_texts("Intent");
    let ghost texts = ts.deep_view();
    let mut out: Vec<ScanIntent> = Vec::new();
    let mut i: usize = 0;
    proof {
        assert(texts.take(0) =~= Seq::<Seq<char>>::empty());
        assert(out.deep_view() =~~= scan_intents_of_texts(texts.take(0)));
    }
    while i < ts.len()
        invariant
            i <= ts.len(),
            texts == ts.deep_view(),
            texts.len() == ts.len(),
            out.deep_view() == scan_intents_of_texts(texts.take(i as int)),
        decreases ts.len() - i,
    {
        proof {
            assert(texts[i as int] == ts@[i as int]@);
        }
        let m = ScanIntent::from_token(ts[i].as_str());
        let ghost prev = out;
        out.push(m);
        proof {
            crate::util::lemma_deep_view_push(out, prev, m);
            assert(texts.take(i as int + 1) =~= texts.take(i as int).push(texts[i as int]));
            assert(texts.take(i as int + 1).drop_last() =~= texts.take(i as int));
            assert(out.deep_view() == scan_intents_of_texts(texts.take(i as int + 1)));
        }
        i += 1;
    }
    proof {
        assert(texts.take(ts.len() as int) =~= texts);
    }
    SupportedIntents { intent: out }
}

fn decode_certification(e: &Element) -> (r: Result<Certification, XmlError>)
    ensures
        match r {
            Ok(c) => spec_decode_certification(e@) == Some(c@),
            Err(_) => spec_decode_certification(e@) is None,
        },
{
    let name = e.req_text("Name")?;
    let version = e.req_text("Version")?;
    Ok(Certification { name, version })
}

fn decode_certifications(e: &Element) -> (r: Result<Certifications, XmlError>)
    ensures
        match r {
            Ok(c) => spec_decode_certifications(e@) == Some(c@),
            Err(_) => spec_decode_certifications(e@) is None,
        },
{
    let ghost cv = elems_view(e.children@);
    proof {
        lemma_elems_view_index(e.children@);
    }
    let mut out: Vec<Certification> = Vec::new();
    let mut err: Option<XmlError> = None;
    let mut i: usize = 0;
    proof {
        assert(cv.take(0) =~= Seq::<SpecElem>::empty());
        assert(elems_named(cv.take(0), "Certification"@) =~= Seq::<SpecElem>::empty());
        assert(out.deep_view() =~~= Seq::<SpecCertification>::empty());
        assert(spec_decode_cert_list(elems_named(cv.take(0), "Certification"@)) == Some(
            out.deep_view(),
        ));
    }
    while i < e.children.len()
        invariant
            i <= e.children.len(),
            cv == elems_view(e.children@),
            cv.len() == e.children.len(),
            forall|k: int| 0 <= k < e.children.len() ==> cv[k] == #[trigger] e.children@[k]@,
            match err {
                None => spec_decode_cert_list(elems_named(cv.take(i as int), "Certification"@))
                    == Some(out.deep_view()),
                Some(_) => spec_decode_cert_list(
                    elems_named(cv.take(i as int), "Certification"@),
                ) is None,
            },
        decreases e.children.len() - i,
    {
        let ln = crate::xml::local_name_x(e.children[i].name.as_str());
        proof {
            assert(cv[i as int] == e.children@[i as int]@);
            assert(cv[i as int].name == e.children@[i as int].name@);
            assert(ln@ == crate::xml::local_name(cv[i as int].name));
            assert(cv.take(i as int + 1) =~= cv.take(i as int).push(cv[i as int]));
            lemma_elems_named_snoc(cv.take(i as int), cv[i as int], "Certification"@);
        }
        if str_eq(ln, "Certification") {
            let ghost prefix = elems_named(cv.take(i as int), "Certification"@);
            proof {
                assert(elems_named(cv.take(i as int + 1), "Certification"@) == prefix.push(
                    cv[i as int],
                ));
                assert(prefix.push(cv[i as int]).drop_last() =~= prefix);
                assert(prefix.push(cv[i as int]).last() == cv[i as int]);
            }
            if err.is_none() {
                match decode_certification(&e.children[i]) {
                    Ok(c) => {
                        out.push(c);
                        proof {
                            assert(out.deep_view() =~~= spec_decode_cert_list(
                                prefix,
                            ).unwrap().push(c@));
                        }
                    },
                    Err(er) => {
                        err = Some(er);
                    },
                }
            }
        }
        i += 1;
    }
    proof {
        assert(cv.take(e.children.len() as int) =~= cv);
    }
    match err {
        None => Ok(Certifications { certification: out }),
        Some(er) => Err(er),
    }
}

fn decode_resolution(e: &Element) -> (r: Result<DiscreteResolution, XmlError>)
    ensures
        match r {
            Ok(c) => spec_decode_resolution(e@) == Some(c@),
            Err(_) => spec_decode_resolution(e@) is None,
        },
{
    let x_resolution = e.req_u32("XResolution")?;
    let y_resolution = e.req_u32("YResolution")?;
    Ok(DiscreteResolution { x_resolution, y_resolution })
}

fn decode_discrete_resolutions(e: &Element) -> (r: Result<DiscreteResolutions, XmlError>)
    ensures
        match r {
            Ok(c) => spec_decode_discrete_resolutions(e@) == Some(c@),
            Err(_) => spec_decode_discrete_resolutions(e@) is None,
        },
{
    let ghost cv = elems_view(e.children@);
    proof {
        lemma_elems_view_index(e.children@);
    }
    let mut out: Vec<DiscreteResolution> = Vec::new();
    let mut err: Option<XmlError> = None;
    let mut i: usize = 0;
    proof {
        assert(cv.take(0) =~= Seq::<SpecElem>::empty());
        assert(elems_named(cv.take(0), "DiscreteResolution"@) =~= Seq::<SpecElem>::empty());
        assert(out.deep_view() =~~= Seq::<SpecDiscreteResolution>::empty());
        assert(spec_decode_res_list(elems_named(cv.take(0), "DiscreteResolution"@)) == Some(
            out.deep_view(),
        ));
    }
    while i < e.children.len()
        invariant
            i <= e.children.len(),
            cv == elems_view(e.children@),
            cv.len() == e.children.len(),
            forall|k: int| 0 <= k < e.children.len() ==> cv[k] == #[trigger] e.children@[k]@,
            match err {
                None => spec_decode_res_list(
                    elems_named(cv.take(i as int), "DiscreteResolution"@),
                ) == Some(out.deep_view()),
                Some(_) => spec_decode_res_list(
                    elems_named(cv.take(i as int), "DiscreteResolution"@),
                ) is None,
            },
        decreases e.children.len() - i,
    {
        let ln = crate::xml::local_name_x(e.children[i].name.as_str());
        proof {
            assert(cv[i as int] == e.children@[i as int]@);
            assert(cv[i as int].name == e.children@[i as int].name@);
            assert(ln@ == crate::xml::local_name(cv[i as int].name));
            assert(cv.take(i as int + 1) =~= cv.take(i as int).push(cv[i as int]));
            lemma_elems_named_snoc(cv.take(i as int), cv[i as int], "DiscreteResolution"@);
        }
        if str_eq(ln, "DiscreteResolution") {
            let ghost prefix = elems_named(cv.take(i as int), "DiscreteResolution"@);
            proof {
                assert(elems_named(cv.take(i as int + 1), "DiscreteResolution"@) == prefix.push(
                    cv[i as int],
                ));
                assert(prefix.push(cv[i as int]).drop_last() =~= prefix);
                assert(prefix.push(cv[i as int]).last() == cv[i as int]);
            }
            if err.is_none() {
                match decode_resolution(&e.children[i]) {
                    Ok(c) => {
                        out.push(c);
                        proof {
                            assert(out.deep_view() =~~= spec_decode_res_list(
                                prefix,
                            ).unwrap().push(c@));
                        }
                    },
                    Err(er) => {
                        err = Some(er);
                    },
                }
            }
        }
        i += 1;
    }
    proof {
        assert(cv.take(e.children.len() as int) =~= cv);
    }
    match err {
        None => Ok(DiscreteResolutions { discrete_resolution: out }),
        Some(er) => Err(er),
    }
}

fn decode_setting_profile(e: &Element) -> (r: Result<SettingProfile, XmlError>)
    ensures
        match r {
            Ok(c) => spec_decode_setting_profile(e@) == Some(c@),
            Err(_) => spec_decode_setting_profile(e@) is None,
        },
{
    let cm = e.req_child("ColorModes")?;
    let color_modes = decode_color_modes(cm);
    let content_types = match e.child("ContentTypes") {
        None => {
            let v: Vec<ContentType> = Vec::new();
            proof {
                assert(v.deep_view() =~~= Seq::<SpecContentType>::empty());
            }
            ContentTypes { content_type: v }
        },
        Some(ct) => decode_content_types(ct),
    };
    let df = e.req_child("DocumentFormats")?;
    let document_formats = DocumentFormats {
        document_format: df.child_texts("DocumentFormat"),
        document_format_ext: df.child_texts("DocumentFormatExt"),
    };
    let sr = e.req_child("SupportedResolutions")?;
    let dr = sr.req_child("DiscreteResolutions")?;
    let discrete_resolutions = decode_discrete_resolutions(dr)?;
    let supported_resolutions = SupportedResolutions { discrete_resolutions };
    let cs = e.req_child("ColorSpaces")?;
    let color_spaces = ColorSpaces { color_space: cs.child_texts("ColorSpace") };
    let cc = e.req_child("CcdChannels")?;
    let ccd_channels = decode_ccd_channels(cc);
    Ok(
        SettingProfile {
            color_modes,
            content_types,
            document_formats,
            supported_resolutions,
            color_spaces,
            ccd_channels,
        },
    )
}

fn decode_compression(e: &Element) -> (r: Result<CompressionFactorSupport, XmlError>)
    ensures
        match r {
            Ok(c) => spec_decode_compression(e@) == Some(c@),
            Err(_) => spec_decode_compression(e@) is None,
        },
{
    let min = e.req_u32("Min")?;
    let max = e.req_u32("Max")?;
    let normal = e.req_u32("Normal")?;
    let step = e.req_u32("Step")?;
    Ok(CompressionFactorSupport { min, max, normal, step })
}

fn decode_sharpen(e: &Element) -> (r: Result<SharpenSupport, XmlError>)
    ensures
        match r {
            Ok(c) => spec_decode_sharpen(e@) == Some(c@),
            Err(_) => spec_decode_sharpen(e@) is None,
        },
{
    let min = e.req_u32("Min")?;
    let max = e.req_u32("Max")?;
    let normal = e.req_u32("Normal")?;
    let step = e.req_u32("Step")?;
    Ok(SharpenSupport { min, max, normal, step })
}

fn decode_input_caps(e: &Element) -> (r: Result<PlatenInputCaps, XmlError>)
    ensures
        match r {
            Ok(c) => spec_decode_input_caps(e@) == Some(c@),
            Err(_) => spec_decode_input_caps(e@) is None,
        },
{
    let min_width = e.req_u32("MinWidth")?;
    let max_width = e.req_u32("MaxWidth")?;
    let min_height = e.req_u32("MinHeight")?;
    let max_height = e.req_u32("MaxHeight")?;
    let max_scan_regions = e.req_u32("MaxScanRegions")?;
    let sps = e.req_child("SettingProfiles")?;
    let sp = sps.req_child("SettingProfile")?;
    let setting_profile = decode_setting_profile(sp)?;
    let setting_profiles = SettingProfiles { setting_profile };
    let si = e.req_child("SupportedIntents")?;
    let supported_intents = decode_supported_intents(si);
    let max_optical_x_resolution = e.req_u32("MaxOpticalXResolution")?;
    let max_optical_y_resolution = e.req_u32("MaxOpticalYResolution")?;
    let risky_left_margin = e.req_u32("RiskyLeftMargin")?;
    let risky_right_margin = e.req_u32("RiskyRightMargin")?;
    let risky_top_margin = e.req_u32("RiskyTopMargin")?;
    let risky_bottom_margin = e.req_u32("RiskyBottomMargin")?;
    Ok(
        PlatenInputCaps {
            min_width,
            max_width,
            min_height,
            max_height,
            max_scan_regions,
            setting_profiles,
            supported_intents,
            max_optical_x_resolution,
            max_optical_y_resolution,
            risky_left_margin,
            risky_right_margin,
            risky_top_margin,
            risky_bottom_margin,
        },
    )
}

impl ColorModes {
    /// Whether the advertised modes include the given known mode.
    fn contains_mode(&self, rgb48: bool) -> (r: bool)
        ensures
            rgb48 ==> r == self@.color_mode.contains(SpecColorMode::RGB48),
            !rgb48 ==> r == self@.color_mode.contains(SpecColorMode::RGB24),
    {
        let ghost want = if rgb48 {
            SpecColorMode::RGB48
        } else {
            SpecColorMode::RGB24
        };
        let ghost ms = self.color_mode.deep_view();
        let mut i: usize = 0;
        while i < self.color_mode.len()
            invariant
                i <= self.color_mode.len(),
                want == if rgb48 {
                    SpecColorMode::RGB48
                } else {
                    SpecColorMode::RGB24
                },
                ms == self.color_mode.deep_view(),
                ms.len() == self.color_mode.len(),
                forall|k: int| 0 <= k < i ==> #[trigger] ms[k] != want,
            decreases self.color_mode.len() - i,
        {
            proof {
                assert(ms[i as int] == self.color_mode@[i as int].deep_view());
            }
            let hit = match &self.color_mode[i] {
                ColorMode::RGB48 => rgb48,
                ColorMode::RGB24 => !rgb48,
                _ => false,
            };
            if hit {
                proof {
                    assert(ms[i as int] == want);
                    assert(ms.contains(want));
                }
                return true;
            }
            i += 1;
        }
        proof {
            if ms.contains(want) {
                let k = choose|k: int| 0 <= k < ms.len() && ms[k] == want;
                assert(ms[k] != want);
            }
        }
        false
    }

    /// The highest-fidelity RGB color mode the device reports supporting:
    /// 16-bit-per-channel RGB when advertised, else 8-bit-per-channel RGB,
    /// else no selection. The choice depends only on which modes occur, not
    /// on their order in the document, and never selects a grayscale or
    /// monochrome mode.
    pub fn color(&self) -> (r: Option<ColorMode>)
        ensures
            self@.color_mode.contains(SpecColorMode::RGB48) ==> r == Some(ColorMode::RGB48),
            !self@.color_mode.contains(SpecColorMode::RGB48) && self@.color_mode.contains(
                SpecColorMode::RGB24,
            ) ==> r == Some(ColorMode::RGB24),
            !self@.color_mode.contains(SpecColorMode::RGB48) && !self@.color_mode.contains(
                SpecColorMode::RGB24,
            ) ==> r is None,
    {
        if self.contains_mode(true) {
            Some(ColorMode::RGB48)
        } else if self.contains_mode(false) {
            Some(ColorMode::RGB24)
        } else {
            None
        }
    }
}

impl ScannerCapabilities {
    /// Decodes a capability document's root element, as [`spec_decode_caps`]
    /// describes.
    pub fn decode(e: &Element) -> (r: Result<ScannerCapabilities, XmlError>)
        ensures
            match r {
                Ok(c) => spec_decode_caps(e@) == Some(c@),
                Err(_) => spec_decode_caps(e@) is None,
            },
    {
        let version = e.req_text("Version")?;
        let make_and_model = e.req_text("MakeAndModel")?;
        let manufacturer = e.opt_text("Manufacturer");
        let serial_number = e.req_text("SerialNumber")?;
        let uuid = e.req_text("UUID")?;
        let admin_uri = e.req_text("AdminURI")?;
        let icon_uri = e.req_text("IconURI")?;
        let certifications = match e.child("Certifications") {
            None => {
                let v: Vec<Certification> = Vec::new();
                proof {
                    assert(v.deep_view() =~~= Seq::<SpecCertification>::empty());
                }
                Certifications { certification: v }
            },
            Some(c) => decode_certifications(c)?,
        };
        let p = e.req_child("Platen")?;
        let ic = p.req_child("PlatenInputCaps")?;
        let platen_input_caps = decode_input_caps(ic)?;
        let platen = Platen { platen_input_caps };
        let compression_factor_support = match e.child("CompressionFactorSupport") {
            None => None,
            Some(c) => Some(decode_compression(c)?),
        };
        let supported_media_types = match e.child("SupportedMediaTypes") {
            None => {
                let v: Vec<String> = Vec::new();
                proof {
                    assert(v.deep_view() =~~= Seq::<Seq<char>>::empty());
                }
                SupportedMediaTypes { media_type: v }
            },
            Some(mt) => SupportedMediaTypes { media_type: mt.child_texts("MediaType") },
        };
        let sharpen_support = match e.child("SharpenSupport") {
            None => None,
            Some(c) => Some(decode_sharpen(c)?),
        };
        Ok(
            ScannerCapabilities {
                version,
                make_and_model,
                manufacturer,
                serial_number,
                uuid,
                admin_uri,
                icon_uri,
                certifications,
                platen,
                compression_factor_support,
                supported_media_types,
                sharpen_support,
            },
        )
    }

    /// Decodes a capability document from its text.
    pub fn from_xml(s: &str) -> (r: Result<ScannerCapabilities, XmlError>)
        ensures
            match r {
                Ok(c) => spec_caps_from_str(s@) == Some(c@),
                Err(_) => spec_caps_from_str(s@) is None,
            },
    {
        let root = crate::xml::parse_document(s)?;
        let caps = ScannerCapabilities::decode(&root)?;
        Ok(caps)
    }
}

} // verus!
