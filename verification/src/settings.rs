//! The outbound scan request: its typed model, the exact XML document it is
//! written as, the tolerant decoding of that document, and the proof that
//! writing and reading back reproduces every field.
//!
//! Element names and namespace prefixes are part of the wire contract: the
//! encoder emits them exactly as the protocol schema fixes them, and omits
//! an absent optional field entirely rather than writing an empty tag.

use vstd::prelude::*;
use crate::capabilities::{
    color_mode_of_token,
    color_mode_token,
    scan_intent_of_token,
    scan_intent_token,
    wf_color_mode,
    wf_scan_intent,
    ColorMode,
    ScanIntent,
    SpecColorMode,
    SpecScanIntent,
};
use crate::util::{dec_chars, str_eq, u32_to_string};
use crate::xml::{
    child_opt_bool,
    child_opt_u32,
    child_text,
    child_u32,
    find_named,
    lemma_find_named_concat,
    lemma_parse_print_document,
    local_name,
    print_elem,
    prolog_chars,
    wf_elem,
    wf_name,
    wf_text,
    Element,
    SpecElem,
    XmlError,
};

verus! {

/// Which device input the scan reads from.
#[derive(Debug, Clone, PartialEq, Eq)]
pub enum InputSource {
    /// The glass flat bed.
    Platen,
    /// The automatic document feeder.
    Feeder,
    /// A vendor extension token this library does not know.
    Custom(String),
}

pub ghost enum SpecInputSource {
    Platen,
    Feeder,
    Custom(Seq<char>),
}

impl View for InputSource {
    type V = SpecInputSource;

    open spec fn view(&self) -> SpecInputSource {
        match self {
            InputSource::Platen => SpecInputSource::Platen,
            InputSource::Feeder => SpecInputSource::Feeder,
            InputSource::Custom(s) => SpecInputSource::Custom(s@),
        }
    }
}

pub open spec fn input_source_token(m: SpecInputSource) -> Seq<char> {
    match m {
        SpecInputSource::Platen => "Platen"@,
        SpecInputSource::Feeder => "Feeder"@,
        SpecInputSource::Custom(s) => s,
    }
}

pub open spec fn is_input_source_token(t: Seq<char>) -> bool {
    t == "Platen"@ || t == "Feeder"@
}

pub open spec fn input_source_of_token(t: Seq<char>) -> SpecInputSource {
    if t == "Platen"@ {
        SpecInputSource::Platen
    } else if t == "Feeder"@ {
        SpecInputSource::Feeder
    } else {
        SpecInputSource::Custom(t)
    }
}

/// A source whose extension token, if any, is not one of the known tokens.
pub open spec fn wf_input_source(m: SpecInputSource) -> bool {
    m matches SpecInputSource::Custom(s) ==> !is_input_source_token(s)
}

/// Reading a written input-source token back yields the source it came from.
pub proof fn lemma_input_source_token_round_trip(m: SpecInputSource)
    requires
        wf_input_source(m),
    ensures
        input_source_of_token(input_source_token(m)) == m,
{
    broadcast use vstd::string::group_string_axioms;

    reveal_strlit("Platen");
    reveal_strlit("Feeder");
    assert("Platen"@.len() == 6);
    assert("Feeder"@.len() == 6);
    assert("Platen"@[0] == 'P');
    assert("Feeder"@[0] == 'F');
}

impl InputSource {
    /// The protocol token this source is written as.
    pub fn to_token(&self) -> (r: &str)
        ensures
            r@ == input_source_token(self@),
    {
        match self {
            InputSource::Platen => "Platen",
            InputSource::Feeder => "Feeder",
            InputSource::Custom(s) => s.as_str(),
        }
    }

    /// Reads a protocol token; an unknown token becomes a vendor extension
    /// value rather than an error.
    pub fn from_token(t: &str) -> (r: InputSource)
        ensures
            r@ == input_source_of_token(t@),
    {
        if str_eq(t, "Platen") {
            InputSource::Platen
        } else if str_eq(t, "Feeder") {
            InputSource::Feeder
        } else {
            InputSource::Custom(t.to_owned())
        }
    }
}

/// The unit of the scan-region lengths: 1/300 inch, the only unit the
/// protocol defines for this element.
#[derive(Debug, Clone, Copy, PartialEq, Eq, Structural)]
pub enum ContentRegionUnits {
    ThreeHundredthsOfInches,
}

/// One rectangular region to scan, in 1/300 inch units.
#[derive(Debug, Clone, PartialEq, Eq)]
pub struct ScanRegion {
    pub height: u32,
    pub content_region_units: ContentRegionUnits,
    pub width: u32,
    pub x_offset: u32,
    pub y_offset: u32,
}

pub ghost struct SpecScanRegion {
    pub height: u32,
    pub content_region_units: ContentRegionUnits,
    pub width: u32,
    pub x_offset: u32,
    pub y_offset: u32,
}

impl View for ScanRegion {
    type V = SpecScanRegion;

    open spec fn view(&self) -> SpecScanRegion {
        SpecScanRegion {
            height: self.height,
            content_region_units: self.content_region_units,
            width: self.width,
            x_offset: self.x_offset,
            y_offset: self.y_offset,
        }
    }
}

/// The region container; this client supports a single region.
#[derive(Debug, Clone, PartialEq, Eq)]
pub struct ScanRegions {
    pub scan_region: ScanRegion,
}

pub ghost struct SpecScanRegions {
    pub scan_region: SpecScanRegion,
}

impl View for ScanRegions {
    type V = SpecScanRegions;

    open spec fn view(&self) -> SpecScanRegions {
        SpecScanRegions { scan_region: self.scan_region@ }
    }
}

/// A scan request. Every field but `version` is optional; an absent field is
/// omitted from the outbound document entirely.
#[derive(Debug, Clone, PartialEq, Eq)]
pub struct ScanSettings {
    pub version: String,
    pub intent: Option<ScanIntent>,
    pub scan_regions: Option<ScanRegions>,
    pub document_format_ext: Option<String>,
    pub input_source: Option<InputSource>,
    pub x_resolution: Option<u32>,
    pub y_resolution: Option<u32>,
    pub color_mode: Option<ColorMode>,
    pub compression_factor: Option<u32>,
    pub blank_page_detection: Option<bool>,
}

pub ghost struct SpecScanSettings {
    pub version: Seq<char>,
    pub intent: Option<SpecScanIntent>,
    pub scan_regions: Option<SpecScanRegions>,
    pub document_format_ext: Option<Seq<char>>,
    pub input_source: Option<SpecInputSource>,
    pub x_resolution: Option<u32>,
    pub y_resolution: Option<u32>,
    pub color_mode: Option<SpecColorMode>,
    pub compression_factor: Option<u32>,
    pub blank_page_detection: Option<bool>,
}

impl View for ScanSettings {
    type V = SpecScanSettings;

    open spec fn view(&self) -> SpecScanSettings {
        SpecScanSettings {
            version: self.version@,
            intent: match self.intent {
                None => None,
                Some(i) => Some(i@),
            },
            scan_regions: match self.scan_regions {
                None => None,
                Some(r) => Some(r@),
            },
            document_format_ext: self.document_format_ext.deep_view(),
            input_source: match self.input_source {
                None => None,
                Some(i) => Some(i@),
            },
            x_resolution: self.x_resolution,
            y_resolution: self.y_resolution,
            color_mode: match self.color_mode {
                None => None,
                Some(m) => Some(m@),
            },
            compression_factor: self.compression_factor,
            blank_page_detection: self.blank_page_detection,
        }
    }
}

/// A childless element holding character data.
pub open spec fn leaf(name: Seq<char>, text: Seq<char>) -> SpecElem {
    SpecElem { name, text, children: Seq::empty() }
}

/// Zero or one leaf, for an optional field: absent fields are omitted.
pub open spec fn opt_piece(name: Seq<char>, t: Option<Seq<char>>) -> Seq<SpecElem> {
    match t {
        None => Seq::empty(),
        Some(x) => seq![leaf(name, x)],
    }
}

pub open spec fn bool_chars(b: bool) -> Seq<char> {
    if b {
        "true"@
    } else {
        "false"@
    }
}

/// The leaves of one region element, in schema order.
pub open spec fn region_children(r: SpecScanRegion) -> Seq<SpecElem> {
    opt_piece("pwg:Height"@, Some(dec_chars(r.height as int))) + opt_piece(
        "pwg:ContentRegionUnits"@,
        Some("escl:ThreeHundredthsOfInches"@),
    ) + opt_piece("pwg:Width"@, Some(dec_chars(r.width as int))) + opt_piece(
        "pwg:XOffset"@,
        Some(dec_chars(r.x_offset as int)),
    ) + opt_piece("pwg:YOffset"@, Some(dec_chars(r.y_offset as int)))
}

/// The region subtree, when a region is requested.
pub open spec fn regions_piece(r: Option<SpecScanRegions>) -> Seq<SpecElem> {
    match r {
        None => Seq::empty(),
        Some(rs) => seq![
            SpecElem {
                name: "pwg:ScanRegions"@,
                text: Seq::empty(),
                children: seq![
                    SpecElem {
                        name: "pwg:ScanRegion"@,
                        text: Seq::empty(),
                        children: region_children(rs.scan_region),
                    },
                ],
            },
        ],
    }
}

pub open spec fn opt_u32_chars(v: Option<u32>) -> Option<Seq<char>> {
    match v {
        None => None,
        Some(x) => Some(dec_chars(x as int)),
    }
}

/// The children of the request document's root, in schema order.
pub open spec fn spec_settings_children(s: SpecScanSettings) -> Seq<SpecElem> {
    opt_piece("pwg:Version"@, Some(s.version)) + opt_piece(
        "scan:Intent"@,
        match s.intent {
            None => None,
            Some(i) => Some(scan_intent_token(i)),
        },
    ) + regions_piece(s.scan_regions) + opt_piece("scan:DocumentFormatExt"@, s.document_format_ext)
        + opt_piece(
        "pwg:InputSource"@,
        match s.input_source {
            None => None,
            Some(i) => Some(input_source_token(i)),
        },
    ) + opt_piece("scan:XResolution"@, opt_u32_chars(s.x_resolution)) + opt_piece(
        "scan:YResolution"@,
        opt_u32_chars(s.y_resolution),
    ) + opt_piece(
        "scan:ColorMode"@,
        match s.color_mode {
            None => None,
            Some(m) => Some(color_mode_token(m)),
        },
    ) + opt_piece("scan:CompressionFactor"@, opt_u32_chars(s.compression_factor)) + opt_piece(
        "scan:BlankPageDetection"@,
        match s.blank_page_detection {
            None => None,
            Some(b) => Some(bool_chars(b)),
        },
    )
}

/// The exact element tree a scan request is written as.
pub open spec fn spec_settings_elem(s: SpecScanSettings) -> SpecElem {
    SpecElem {
        name: "scan:ScanSettings"@,
        text: Seq::empty(),
        children: spec_settings_children(s),
    }
}

/// The exact document text a scan request is written as.
pub open spec fn spec_settings_doc(s: SpecScanSettings) -> Seq<char> {
    prolog_chars() + print_elem(spec_settings_elem(s))
}

pub open spec fn spec_decode_region(e: SpecElem) -> Option<SpecScanRegion> {
    match child_u32(e, "Height"@) {
        None => None,
        Some(height) => match child_text(e, "ContentRegionUnits"@) {
            None => None,
            Some(u) => if u != "escl:ThreeHundredthsOfInches"@ {
                None
            } else {
                match child_u32(e, "Width"@) {
                    None => None,
                    Some(width) => match child_u32(e, "XOffset"@) {
                        None => None,
                        Some(x_offset) => match child_u32(e, "YOffset"@) {
                            None => None,
                            Some(y_offset) => Some(
                                SpecScanRegion {
                                    height,
                                    content_region_units:
                                        ContentRegionUnits::ThreeHundredthsOfInches,
                                    width,
                                    x_offset,
                                    y_offset,
                                },
                            ),
                        },
                    },
                }
            },
        },
    }
}

pub open spec fn spec_decode_regions_field(e: SpecElem) -> Option<Option<SpecScanRegions>> {
    match find_named(e.children, "ScanRegions"@) {
        None => Some(None),
        Some(rs) => match find_named(rs.children, "ScanRegion"@) {
            None => None,
            Some(r) => match spec_decode_region(r) {
                None => None,
                Some(v) => Some(Some(SpecScanRegions { scan_region: v })),
            },
        },
    }
}

/// What decoding a request document's root element yields: `None` exactly
/// when the root is not the request element, the version is missing, a
/// present region is incomplete or in an unknown unit, or a present numeric
/// or truth-valued field does not parse. Enumerated tokens never fail:
/// unknown ones become vendor extension values.
pub open spec fn spec_decode_settings(e: SpecElem) -> Option<SpecScanSettings> {
    if e.name != "scan:ScanSettings"@ {
        None
    } else {
        match child_text(e, "Version"@) {
            None => None,
            Some(version) => match spec_decode_regions_field(e) {
                None => None,
                Some(scan_regions) => match child_opt_u32(e, "XResolution"@) {
                    None => None,
                    Some(x_resolution) => match child_opt_u32(e, "YResolution"@) {
                        None => None,
                        Some(y_resolution) => match child_opt_u32(e, "CompressionFactor"@) {
                            None => None,
                            Some(compression_factor) => match child_opt_bool(
                                e,
                                "BlankPageDetection"@,
                            ) {
                                None => None,
                                Some(blank_page_detection) => Some(
                                    SpecScanSettings {
                                        version,
                                        intent: match child_text(e, "Intent"@) {
                                            None => None,
                                            Some(t) => Some(scan_intent_of_token(t)),
                                        },
                                        scan_regions,
                                        document_format_ext: child_text(
                                            e,
                                            "DocumentFormatExt"@,
                                        ),
                                        input_source: match child_text(e, "InputSource"@) {
                                            None => None,
                                            Some(t) => Some(input_source_of_token(t)),
                                        },
                                        x_resolution,
                                        y_resolution,
                                        color_mode: match child_text(e, "ColorMode"@) {
                                            None => None,
                                            Some(t) => Some(color_mode_of_token(t)),
                                        },
                                        compression_factor,
                                        blank_page_detection,
                                    },
                                ),
                            },
                        },
                    },
                },
            },
        }
    }
}

/// Decoding a request document from its text: parse, then decode the root.
pub open spec fn spec_settings_from_str(s: Seq<char>) -> Option<SpecScanSettings> {
    match crate::xml::spec_parse_document(s) {
        None => None,
        Some(root) => spec_decode_settings(root),
    }
}

impl ScanSettings {
    /// Derives a request from a device's capabilities: the device's own
    /// protocol version, and the highest-fidelity RGB color mode it
    /// advertises — 16-bit-per-channel RGB over 8-bit-per-channel RGB, and
    /// no selection at all when neither is advertised, since grayscale and
    /// monochrome modes are never auto-selected. Every other field starts
    /// absent for the caller to override.
    pub fn for_device(caps: &crate::capabilities::ScannerCapabilities) -> (r: ScanSettings)
        ensures
            r@.version == caps@.version,
            ({
                let advertised =
                    caps@.platen.platen_input_caps.setting_profiles.setting_profile.color_modes.color_mode;
                &&& advertised.contains(SpecColorMode::RGB48) ==> r@.color_mode == Some(
                    SpecColorMode::RGB48,
                )
                &&& !advertised.contains(SpecColorMode::RGB48) && advertised.contains(
                    SpecColorMode::RGB24,
                ) ==> r@.color_mode == Some(SpecColorMode::RGB24)
                &&& !advertised.contains(SpecColorMode::RGB48) && !advertised.contains(
                    SpecColorMode::RGB24,
                ) ==> r@.color_mode is None
            }),
            r@.intent is None,
            r@.scan_regions is None,
            r@.document_format_ext is None,
            r@.input_source is None,
            r@.x_resolution is None,
            r@.y_resolution is None,
            r@.compression_factor is None,
            r@.blank_page_detection is None,
    {
        let color_mode = caps
            .platen
            .platen_input_caps
            .setting_profiles
            .setting_profile
            .color_modes
            .color();
        ScanSettings {
            version: caps.version.clone(),
            intent: None,
            scan_regions: None,
            document_format_ext: None,
            input_source: None,
            x_resolution: None,
            y_resolution: None,
            color_mode,
            compression_factor: None,
            blank_page_detection: None,
        }
    }

    /// Decodes a request document's root element, as
    /// [`spec_decode_settings`] describes.
    pub fn decode(e: &Element) -> (r: Result<ScanSettings, XmlError>)
        ensures
            match r {
                Ok(c) => spec_decode_settings(e@) == Some(c@),
                Err(_) => spec_decode_settings(e@) is None,
            },
    {
        if !str_eq(e.name.as_str(), "scan:ScanSettings") {
            return Err(XmlError::WrongRoot);
        }
        let version = e.req_text("Version")?;
        let scan_regions: Option<ScanRegions> = match e.child("ScanRegions") {
            None => None,
            Some(rs) => {
                let r = rs.req_child("ScanRegion")?;
                let height = r.req_u32("Height")?;
                let u = r.req_text("ContentRegionUnits")?;
                if !str_eq(u.as_str(), "escl:ThreeHundredthsOfInches") {
                    return Err(XmlError::BadValue { name: u });
                }
                let width = r.req_u32("Width")?;
                let x_offset = r.req_u32("XOffset")?;
                let y_offset = r.req_u32("YOffset")?;
                Some(
                    ScanRegions {
                        scan_region: ScanRegion {
                            height,
                            content_region_units: ContentRegionUnits::ThreeHundredthsOfInches,
                            width,
                            x_offset,
                            y_offset,
                        },
                    },
                )
            },
        };
        let intent: Option<ScanIntent> = match e.child_text("Intent") {
            None => None,
            Some(t) => Some(ScanIntent::from_token(t)),
        };
        let document_format_ext = e.opt_text("DocumentFormatExt");
        let input_source: Option<InputSource> = match e.child_text("InputSource") {
            None => None,
            Some(t) => Some(InputSource::from_token(t)),
        };
        let x_resolution = e.opt_u32("XResolution")?;
        let y_resolution = e.opt_u32("YResolution")?;
        let color_mode: Option<ColorMode> = match e.child_text("ColorMode") {
            None => None,
            Some(t) => Some(ColorMode::from_token(t)),
        };
        let compression_factor = e.opt_u32("CompressionFactor")?;
        let blank_page_detection = e.opt_bool("BlankPageDetection")?;
        Ok(
            ScanSettings {
                version,
                intent,
                scan_regions,
                document_format_ext,
                input_source,
                x_resolution,
                y_resolution,
                color_mode,
                compression_factor,
                blank_page_detection,
            },
        )
    }

    /// Decodes a request document from its text.
    pub fn from_xml(s: &str) -> (r: Result<ScanSettings, XmlError>)
        ensures
            match r {
                Ok(c) => spec_settings_from_str(s@) == Some(c@),
                Err(_) => spec_settings_from_str(s@) is None,
            },
    {
        let root = crate::xml::parse_document(s)?;
        let settings = ScanSettings::decode(&root)?;
        Ok(settings)
    }
}

/// A scan request the wire format can carry faithfully: texts hold no markup
/// characters, and extension tokens do not collide with known protocol
/// tokens (a colliding extension token would read back as the known value).
pub open spec fn wf_settings(s: SpecScanSettings) -> bool {
    &&& wf_text(s.version)
    &&& match s.intent {
        None => true,
        Some(i) => wf_scan_intent(i) && wf_text(scan_intent_token(i)),
    }
    &&& match s.document_format_ext {
        None => true,
        Some(t) => wf_text(t),
    }
    &&& match s.input_source {
        None => true,
        Some(i) => wf_input_source(i) && wf_text(input_source_token(i)),
    }
    &&& match s.color_mode {
        None => true,
        Some(m) => wf_color_mode(m) && wf_text(color_mode_token(m)),
    }
}

pub open spec fn all_wf(cs: Seq<SpecElem>) -> bool {
    forall|i: int| 0 <= i < cs.len() ==> wf_elem(#[trigger] cs[i])
}

proof fn lemma_all_wf_concat(a: Seq<SpecElem>, b: Seq<SpecElem>)
    requires
        all_wf(a),
        all_wf(b),
    ensures
        all_wf(a + b),
{
    assert forall|i: int| 0 <= i < (a + b).len() implies wf_elem(#[trigger] (a + b)[i]) by {
        if i < a.len() {
            assert((a + b)[i] == a[i]);
        } else {
            assert((a + b)[i] == b[i - a.len()]);
        }
    }
}

proof fn lemma_leaf_wf(name: Seq<char>, text: Seq<char>)
    requires
        wf_name(name),
        wf_text(text),
    ensures
        wf_elem(leaf(name, text)),
        all_wf(seq![leaf(name, text)]),
{
    assert(leaf(name, text).children.len() == 0);
    assert(wf_elem(leaf(name, text)));
    assert forall|i: int| 0 <= i < 1 implies wf_elem(#[trigger] seq![leaf(name, text)][i]) by {
        assert(seq![leaf(name, text)][0] == leaf(name, text));
    }
}

proof fn lemma_opt_piece_wf(name: Seq<char>, t: Option<Seq<char>>)
    requires
        wf_name(name),
        match t {
            None => true,
            Some(x) => wf_text(x),
        },
    ensures
        all_wf(opt_piece(name, t)),
{
    match t {
        None => {
        },
        Some(x) => {
            lemma_leaf_wf(name, x);
        },
    }
}

proof fn lemma_dec_text(n: int)
    requires
        n >= 0,
    ensures
        wf_text(dec_chars(n)),
{
    crate::util::lemma_dec_chars_val(n);
    assert forall|i: int|
        0 <= i < dec_chars(n).len() implies #[trigger] dec_chars(n)[i] != '<' && dec_chars(n)[i]
        != '&' by {
        assert(crate::util::is_digit(dec_chars(n)[i]));
    }
}

/// The lookup behaviour of an optional piece: it misses every other name,
/// and carries its leaf exactly when the field is present.
proof fn lemma_find_opt_piece(name: Seq<char>, t: Option<Seq<char>>, l: Seq<char>)
    ensures
        local_name(name) != l ==> find_named(opt_piece(name, t), l) is None,
        t is None ==> find_named(opt_piece(name, t), l) is None,
        (local_name(name) == l && t is Some) ==> find_named(opt_piece(name, t), l) == Some(
            leaf(name, t.unwrap()),
        ),
{
    assert(find_named(Seq::<SpecElem>::empty(), l) is None);
    match t {
        None => {
            assert(opt_piece(name, t) =~= Seq::<SpecElem>::empty());
        },
        Some(x) => {
            assert(seq![leaf(name, x)].first() == leaf(name, x));
            assert(seq![leaf(name, x)].drop_first() =~= Seq::<SpecElem>::empty());
        },
    }
}

/// Skipping a piece that does not hold the name being looked up.
proof fn lemma_skip_piece(p: Seq<SpecElem>, rest: Seq<SpecElem>, l: Seq<char>)
    requires
        find_named(p, l) is None,
    ensures
        find_named(p + rest, l) == find_named(rest, l),
{
    lemma_find_named_concat(p, rest, l);
}

/// Every piece of the settings child list is well formed on its own.
#[verifier::rlimit(100)]
proof fn lemma_settings_pieces_wf(s: SpecScanSettings)
    requires
        wf_settings(s),
    ensures
        all_wf(opt_piece("pwg:Version"@, Some(s.version))),
        all_wf(
            opt_piece(
                "scan:Intent"@,
                match s.intent {
                    None => None,
                    Some(i) => Some(scan_intent_token(i)),
                },
            ),
        ),
        all_wf(regions_piece(s.scan_regions)),
        all_wf(opt_piece("scan:DocumentFormatExt"@, s.document_format_ext)),
        all_wf(
            opt_piece(
                "pwg:InputSource"@,
                match s.input_source {
                    None => None,
                    Some(i) => Some(input_source_token(i)),
                },
            ),
        ),
        all_wf(opt_piece("scan:XResolution"@, opt_u32_chars(s.x_resolution))),
        all_wf(opt_piece("scan:YResolution"@, opt_u32_chars(s.y_resolution))),
        all_wf(
            opt_piece(
                "scan:ColorMode"@,
                match s.color_mode {
                    None => None,
                    Some(m) => Some(color_mode_token(m)),
                },
            ),
        ),
        all_wf(opt_piece("scan:CompressionFactor"@, opt_u32_chars(s.compression_factor))),
        all_wf(
            opt_piece(
                "scan:BlankPageDetection"@,
                match s.blank_page_detection {
                    None => None,
                    Some(b) => Some(bool_chars(b)),
                },
            ),
        ),
{
    broadcast use vstd::string::group_string_axioms;

    reveal_strlit("pwg:Version");
    reveal_strlit("scan:Intent");
    reveal_strlit("pwg:ScanRegions");
    reveal_strlit("pwg:ScanRegion");
    reveal_strlit("pwg:Height");
    reveal_strlit("pwg:ContentRegionUnits");
    reveal_strlit("pwg:Width");
    reveal_strlit("pwg:XOffset");
    reveal_strlit("pwg:YOffset");
    reveal_strlit("scan:DocumentFormatExt");
    reveal_strlit("pwg:InputSource");
    reveal_strlit("scan:XResolution");
    reveal_strlit("scan:YResolution");
    reveal_strlit("scan:ColorMode");
    reveal_strlit("scan:CompressionFactor");
    reveal_strlit("scan:BlankPageDetection");
    reveal_strlit("escl:ThreeHundredthsOfInches");
    reveal_strlit("true");
    reveal_strlit("false");
    lemma_opt_piece_wf("pwg:Version"@, Some(s.version));
    lemma_opt_piece_wf(
        "scan:Intent"@,
        match s.intent {
            None => None,
            Some(i) => Some(scan_intent_token(i)),
        },
    );
    match s.scan_regions {
        None => {
            assert(all_wf(regions_piece(s.scan_regions)));
        },
        Some(rs) => {
            let c3 = regions_piece(s.scan_regions);
            lemma_dec_text(rs.scan_region.height as int);
            lemma_dec_text(rs.scan_region.width as int);
            lemma_dec_text(rs.scan_region.x_offset as int);
            lemma_dec_text(rs.scan_region.y_offset as int);
            lemma_opt_piece_wf("pwg:Height"@, Some(dec_chars(rs.scan_region.height as int)));
            lemma_opt_piece_wf(
                "pwg:ContentRegionUnits"@,
                Some("escl:ThreeHundredthsOfInches"@),
            );
            lemma_opt_piece_wf("pwg:Width"@, Some(dec_chars(rs.scan_region.width as int)));
            lemma_opt_piece_wf("pwg:XOffset"@, Some(dec_chars(rs.scan_region.x_offset as int)));
            lemma_opt_piece_wf("pwg:YOffset"@, Some(dec_chars(rs.scan_region.y_offset as int)));
            let rc = region_children(rs.scan_region);
            assert(all_wf(rc)) by {
                assert forall|i: int| 0 <= i < rc.len() implies wf_elem(#[trigger] rc[i]) by {
                    assert(rc[i] == leaf(
                        if i == 0 {
                            ("pwg:Height")@
                        } else if i == 1 {
                            ("pwg:ContentRegionUnits")@
                        } else if i == 2 {
                            ("pwg:Width")@
                        } else if i == 3 {
                            ("pwg:XOffset")@
                        } else {
                            ("pwg:YOffset")@
                        },
                        if i == 0 {
                            dec_chars(rs.scan_region.height as int)
                        } else if i == 1 {
                            ("escl:ThreeHundredthsOfInches")@
                        } else if i == 2 {
                            dec_chars(rs.scan_region.width as int)
                        } else if i == 3 {
                            dec_chars(rs.scan_region.x_offset as int)
                        } else {
                            dec_chars(rs.scan_region.y_offset as int)
                        },
                    ));
                }
            }
            let region = c3[0].children[0];
            assert(region.children == rc);
            assert(wf_elem(region)) by {
                assert(region.text.len() == 0);
            }
            assert(wf_elem(c3[0])) by {
                assert(c3[0].children.len() == 1);
                assert(c3[0].children[0] == region);
            }
            assert(all_wf(c3)) by {
                assert forall|i: int| 0 <= i < c3.len() implies wf_elem(#[trigger] c3[i]) by {
                    assert(c3[i] == c3[0]);
                }
            }
        },
    }
    lemma_opt_piece_wf("scan:DocumentFormatExt"@, s.document_format_ext);
    lemma_opt_piece_wf(
        "pwg:InputSource"@,
        match s.input_source {
            None => None,
            Some(i) => Some(input_source_token(i)),
        },
    );
    match s.x_resolution {
        None => {
        },
        Some(v) => {
            lemma_dec_text(v as int);
        },
    }
    lemma_opt_piece_wf("scan:XResolution"@, opt_u32_chars(s.x_resolution));
    match s.y_resolution {
        None => {
        },
        Some(v) => {
            lemma_dec_text(v as int);
        },
    }
    lemma_opt_piece_wf("scan:YResolution"@, opt_u32_chars(s.y_resolution));
    lemma_opt_piece_wf(
        "scan:ColorMode"@,
        match s.color_mode {
            None => None,
            Some(m) => Some(color_mode_token(m)),
        },
    );
    match s.compression_factor {
        None => {
        },
        Some(v) => {
            lemma_dec_text(v as int);
        },
    }
    lemma_opt_piece_wf("scan:CompressionFactor"@, opt_u32_chars(s.compression_factor));
    lemma_opt_piece_wf(
        "scan:BlankPageDetection"@,
        match s.blank_page_detection {
            None => None,
            Some(b) => Some(bool_chars(b)),
        },
    );
}

/// The settings element is well formed, so printing and parsing it back
/// is faithful.
#[verifier::rlimit(100)]
proof fn lemma_settings_wf(s: SpecScanSettings)
    requires
        wf_settings(s),
    ensures
        wf_elem(spec_settings_elem(s)),
{
    broadcast use vstd::string::group_string_axioms;

    reveal_strlit("scan:ScanSettings");
    lemma_settings_pieces_wf(s);
    let c1 = opt_piece("pwg:Version"@, Some(s.version));
    let c2 = opt_piece(
        "scan:Intent"@,
        match s.intent {
            None => None,
            Some(i) => Some(scan_intent_token(i)),
        },
    );
    let c3 = regions_piece(s.scan_regions);
    let c4 = opt_piece("scan:DocumentFormatExt"@, s.document_format_ext);
    let c5 = opt_piece(
        "pwg:InputSource"@,
        match s.input_source {
            None => None,
            Some(i) => Some(input_source_token(i)),
        },
    );
    let c6 = opt_piece("scan:XResolution"@, opt_u32_chars(s.x_resolution));
    let c7 = opt_piece("scan:YResolution"@, opt_u32_chars(s.y_resolution));
    let c8 = opt_piece(
        "scan:ColorMode"@,
        match s.color_mode {
            None => None,
            Some(m) => Some(color_mode_token(m)),
        },
    );
    let c9 = opt_piece("scan:CompressionFactor"@, opt_u32_chars(s.compression_factor));
    let c10 = opt_piece(
        "scan:BlankPageDetection"@,
        match s.blank_page_detection {
            None => None,
            Some(b) => Some(bool_chars(b)),
        },
    );
    let cc = spec_settings_children(s);
    let p2 = c1 + c2;
    let p3 = p2 + c3;
    let p4 = p3 + c4;
    let p5 = p4 + c5;
    let p6 = p5 + c6;
    let p7 = p6 + c7;
    let p8 = p7 + c8;
    let p9 = p8 + c9;
    let p10 = p9 + c10;
    assert(cc == p10);
    lemma_all_wf_concat(c1, c2);
    lemma_all_wf_concat(p2, c3);
    lemma_all_wf_concat(p3, c4);
    lemma_all_wf_concat(p4, c5);
    lemma_all_wf_concat(p5, c6);
    lemma_all_wf_concat(p6, c7);
    lemma_all_wf_concat(p7, c8);
    lemma_all_wf_concat(p8, c9);
    lemma_all_wf_concat(p9, c10);
    assert(all_wf(cc));
    assert(wf_elem(spec_settings_elem(s))) by {
        assert(spec_settings_elem(s).children == cc);
        assert(cc.len() >= 1);
        assert(spec_settings_elem(s).text.len() == 0);
    }
}

/// The region element the encoder writes decodes back to its region.
#[verifier::rlimit(100)]
proof fn lemma_region_decode(r: SpecScanRegion)
    ensures
        spec_decode_region(
            SpecElem {
                name: "pwg:ScanRegion"@,
                text: Seq::empty(),
                children: region_children(r),
            },
        ) == Some(r),
{
    broadcast use vstd::string::group_string_axioms;

    reveal_strlit("pwg:Height");
    reveal_strlit("Height");
    reveal_strlit("pwg:ContentRegionUnits");
    reveal_strlit("ContentRegionUnits");
    reveal_strlit("pwg:Width");
    reveal_strlit("Width");
    reveal_strlit("pwg:XOffset");
    reveal_strlit("XOffset");
    reveal_strlit("pwg:YOffset");
    reveal_strlit("YOffset");
    reveal_strlit("escl:ThreeHundredthsOfInches");
    assert forall|k: int| 0 <= k < 3 implies ("pwg:Height")@[k] != ':' by {}
    crate::xml::lemma_local_name_at(("pwg:Height")@, 3);
    assert(("pwg:Height")@.subrange(4, 10) =~= "Height"@);
    assert forall|k: int| 0 <= k < 3 implies ("pwg:ContentRegionUnits")@[k] != ':' by {}
    crate::xml::lemma_local_name_at(("pwg:ContentRegionUnits")@, 3);
    assert(("pwg:ContentRegionUnits")@.subrange(4, 22) =~= "ContentRegionUnits"@);
    assert forall|k: int| 0 <= k < 3 implies ("pwg:Width")@[k] != ':' by {}
    crate::xml::lemma_local_name_at(("pwg:Width")@, 3);
    assert(("pwg:Width")@.subrange(4, 9) =~= "Width"@);
    assert forall|k: int| 0 <= k < 3 implies ("pwg:XOffset")@[k] != ':' by {}
    crate::xml::lemma_local_name_at(("pwg:XOffset")@, 3);
    assert(("pwg:XOffset")@.subrange(4, 11) =~= "XOffset"@);
    assert forall|k: int| 0 <= k < 3 implies ("pwg:YOffset")@[k] != ':' by {}
    crate::xml::lemma_local_name_at(("pwg:YOffset")@, 3);
    assert(("pwg:YOffset")@.subrange(4, 11) =~= "YOffset"@);
    assert("XOffset"@[0] == 'X');
    assert("YOffset"@[0] == 'Y');
    assert("XOffset"@ != "YOffset"@);
    let rc = region_children(r);
    let g1 = opt_piece("pwg:Height"@, Some(dec_chars(r.height as int)));
    let g2 = opt_piece("pwg:ContentRegionUnits"@, Some("escl:ThreeHundredthsOfInches"@));
    let g3 = opt_piece("pwg:Width"@, Some(dec_chars(r.width as int)));
    let g4 = opt_piece("pwg:XOffset"@, Some(dec_chars(r.x_offset as int)));
    let g5 = opt_piece("pwg:YOffset"@, Some(dec_chars(r.y_offset as int)));
    let q5 = g5;
    let q4 = g4 + q5;
    let q3 = g3 + q4;
    let q2 = g2 + q3;
    assert(rc =~= g1 + q2);
    assert forall|l: Seq<char>|
        l == "Height"@ || l == "ContentRegionUnits"@ || l == "Width"@ || l == "XOffset"@ || l
            == "YOffset"@ implies #[trigger] find_named(rc, l) == {
        if l == "Height"@ {
            find_named(g1, l)
        } else if l == "ContentRegionUnits"@ {
            find_named(g2, l)
        } else if l == "Width"@ {
            find_named(g3, l)
        } else if l == "XOffset"@ {
            find_named(g4, l)
        } else {
            find_named(g5, l)
        }
    } by {
        lemma_find_opt_piece("pwg:Height"@, Some(dec_chars(r.height as int)), l);
        lemma_find_opt_piece(
            "pwg:ContentRegionUnits"@,
            Some("escl:ThreeHundredthsOfInches"@),
            l,
        );
        lemma_find_opt_piece("pwg:Width"@, Some(dec_chars(r.width as int)), l);
        lemma_find_opt_piece("pwg:XOffset"@, Some(dec_chars(r.x_offset as int)), l);
        lemma_find_opt_piece("pwg:YOffset"@, Some(dec_chars(r.y_offset as int)), l);
        lemma_find_named_concat(g4, q5, l);
        lemma_find_named_concat(g3, q4, l);
        lemma_find_named_concat(g2, q3, l);
        lemma_find_named_concat(g1, q2, l);
    }
    crate::util::lemma_dec_chars_val(r.height as int);
    crate::util::lemma_dec_chars_val(r.width as int);
    crate::util::lemma_dec_chars_val(r.x_offset as int);
    crate::util::lemma_dec_chars_val(r.y_offset as int);
    let e = SpecElem { name: "pwg:ScanRegion"@, text: Seq::empty(), children: region_children(r) };
    assert(child_u32(e, "Height"@) == Some(r.height));
    assert(child_text(e, "ContentRegionUnits"@) == Some("escl:ThreeHundredthsOfInches"@));
    assert(child_u32(e, "Width"@) == Some(r.width));
    assert(child_u32(e, "XOffset"@) == Some(r.x_offset));
    assert(child_u32(e, "YOffset"@) == Some(r.y_offset));
    match r.content_region_units {
        ContentRegionUnits::ThreeHundredthsOfInches => {
        },
    }
    assert(r == SpecScanRegion {
        height: r.height,
        content_region_units: ContentRegionUnits::ThreeHundredthsOfInches,
        width: r.width,
        x_offset: r.x_offset,
        y_offset: r.y_offset,
    });
}

/// How each field of an encoded request reads back out of its element tree.
#[verifier::rlimit(100)]
proof fn lemma_settings_lookup(s: SpecScanSettings)
    ensures
        child_text(spec_settings_elem(s), "Version"@) == Some(s.version),
        child_text(spec_settings_elem(s), "Intent"@) == (match s.intent {
            None => None::<Seq<char>>,
            Some(i) => Some(scan_intent_token(i)),
        }),
        spec_decode_regions_field(spec_settings_elem(s)) == Some(s.scan_regions),
        child_text(spec_settings_elem(s), "DocumentFormatExt"@) == s.document_format_ext,
        child_text(spec_settings_elem(s), "InputSource"@) == (match s.input_source {
            None => None::<Seq<char>>,
            Some(i) => Some(input_source_token(i)),
        }),
        child_opt_u32(spec_settings_elem(s), "XResolution"@) == Some(s.x_resolution),
        child_opt_u32(spec_settings_elem(s), "YResolution"@) == Some(s.y_resolution),
        child_text(spec_settings_elem(s), "ColorMode"@) == (match s.color_mode {
            None => None::<Seq<char>>,
            Some(m) => Some(color_mode_token(m)),
        }),
        child_opt_u32(spec_settings_elem(s), "CompressionFactor"@) == Some(s.compression_factor),
        child_opt_bool(spec_settings_elem(s), "BlankPageDetection"@) == Some(
            s.blank_page_detection,
        ),
{
    reveal_strlit("pwg:Version");
    reveal_strlit("Version");
    reveal_strlit("scan:Intent");
    reveal_strlit("Intent");
    reveal_strlit("pwg:ScanRegions");
    reveal_strlit("ScanRegions");
    reveal_strlit("pwg:ScanRegion");
    reveal_strlit("ScanRegion");
    reveal_strlit("scan:DocumentFormatExt");
    reveal_strlit("DocumentFormatExt");
    reveal_strlit("pwg:InputSource");
    reveal_strlit("InputSource");
    reveal_strlit("scan:XResolution");
    reveal_strlit("XResolution");
    reveal_strlit("scan:YResolution");
    reveal_strlit("YResolution");
    reveal_strlit("scan:ColorMode");
    reveal_strlit("ColorMode");
    reveal_strlit("scan:CompressionFactor");
    reveal_strlit("CompressionFactor");
    reveal_strlit("scan:BlankPageDetection");
    reveal_strlit("BlankPageDetection");
    reveal_strlit("true");
    reveal_strlit("false");
    assert forall|k: int| 0 <= k < 3 implies ("pwg:Version")@[k] != ':' by {}
    crate::xml::lemma_local_name_at(("pwg:Version")@, 3);
    assert(("pwg:Version")@.subrange(4, 11) =~= "Version"@);
    assert forall|k: int| 0 <= k < 4 implies ("scan:Intent")@[k] != ':' by {}
    crate::xml::lemma_local_name_at(("scan:Intent")@, 4);
    assert(("scan:Intent")@.subrange(5, 11) =~= "Intent"@);
    assert forall|k: int| 0 <= k < 3 implies ("pwg:ScanRegions")@[k] != ':' by {}
    crate::xml::lemma_local_name_at(("pwg:ScanRegions")@, 3);
    assert(("pwg:ScanRegions")@.subrange(4, 15) =~= "ScanRegions"@);
    assert forall|k: int| 0 <= k < 3 implies ("pwg:ScanRegion")@[k] != ':' by {}
    crate::xml::lemma_local_name_at(("pwg:ScanRegion")@, 3);
    assert(("pwg:ScanRegion")@.subrange(4, 14) =~= "ScanRegion"@);
    assert forall|k: int| 0 <= k < 4 implies ("scan:DocumentFormatExt")@[k] != ':' by {}
    crate::xml::lemma_local_name_at(("scan:DocumentFormatExt")@, 4);
    assert(("scan:DocumentFormatExt")@.subrange(5, 22) =~= "DocumentFormatExt"@);
    assert forall|k: int| 0 <= k < 3 implies ("pwg:InputSource")@[k] != ':' by {}
    crate::xml::lemma_local_name_at(("pwg:InputSource")@, 3);
    assert(("pwg:InputSource")@.subrange(4, 15) =~= "InputSource"@);
    assert forall|k: int| 0 <= k < 4 implies ("scan:XResolution")@[k] != ':' by {}
    crate::xml::lemma_local_name_at(("scan:XResolution")@, 4);
    assert(("scan:XResolution")@.subrange(5, 16) =~= "XResolution"@);
    assert forall|k: int| 0 <= k < 4 implies ("scan:YResolution")@[k] != ':' by {}
    crate::xml::lemma_local_name_at(("scan:YResolution")@, 4);
    assert(("scan:YResolution")@.subrange(5, 16) =~= "YResolution"@);
    assert forall|k: int| 0 <= k < 4 implies ("scan:ColorMode")@[k] != ':' by {}
    crate::xml::lemma_local_name_at(("scan:ColorMode")@, 4);
    assert(("scan:ColorMode")@.subrange(5, 14) =~= "ColorMode"@);
    assert forall|k: int| 0 <= k < 4 implies ("scan:CompressionFactor")@[k] != ':' by {}
    crate::xml::lemma_local_name_at(("scan:CompressionFactor")@, 4);
    assert(("scan:CompressionFactor")@.subrange(5, 22) =~= "CompressionFactor"@);
    assert forall|k: int| 0 <= k < 4 implies ("scan:BlankPageDetection")@[k] != ':' by {}
    crate::xml::lemma_local_name_at(("scan:BlankPageDetection")@, 4);
    assert(("scan:BlankPageDetection")@.subrange(5, 23) =~= "BlankPageDetection"@);
    assert("Version"@.len() == 7);
    assert("Intent"@.len() == 6);
    assert("ScanRegions"@.len() == 11);
    assert("DocumentFormatExt"@.len() == 17);
    assert("InputSource"@.len() == 11);
    assert("XResolution"@.len() == 11);
    assert("YResolution"@.len() == 11);
    assert("ColorMode"@.len() == 9);
    assert("CompressionFactor"@.len() == 17);
    assert("BlankPageDetection"@.len() == 18);
    assert("ScanRegions"@[0] == 'S');
    assert("InputSource"@[0] == 'I');
    assert("XResolution"@[0] == 'X');
    assert("YResolution"@[0] == 'Y');
    assert("DocumentFormatExt"@[0] == 'D');
    assert("CompressionFactor"@[0] == 'C');
    assert("ScanRegions"@ != "InputSource"@ && "ScanRegions"@ != "XResolution"@
        && "ScanRegions"@ != "YResolution"@ && "InputSource"@ != "XResolution"@
        && "InputSource"@ != "YResolution"@ && "XResolution"@ != "YResolution"@
        && "DocumentFormatExt"@ != "CompressionFactor"@);
    let c1 = opt_piece("pwg:Version"@, Some(s.version));
    let c2 = opt_piece(
        "scan:Intent"@,
        match s.intent {
            None => None,
            Some(i) => Some(scan_intent_token(i)),
        },
    );
    let c3 = regions_piece(s.scan_regions);
    let c4 = opt_piece("scan:DocumentFormatExt"@, s.document_format_ext);
    let c5 = opt_piece(
        "pwg:InputSource"@,
        match s.input_source {
            None => None,
            Some(i) => Some(input_source_token(i)),
        },
    );
    let c6 = opt_piece("scan:XResolution"@, opt_u32_chars(s.x_resolution));
    let c7 = opt_piece("scan:YResolution"@, opt_u32_chars(s.y_resolution));
    let c8 = opt_piece(
        "scan:ColorMode"@,
        match s.color_mode {
            None => None,
            Some(m) => Some(color_mode_token(m)),
        },
    );
    let c9 = opt_piece("scan:CompressionFactor"@, opt_u32_chars(s.compression_factor));
    let c10 = opt_piece(
        "scan:BlankPageDetection"@,
        match s.blank_page_detection {
            None => None,
            Some(b) => Some(bool_chars(b)),
        },
    );
    let cc = spec_settings_children(s);
    let p2 = c1 + c2;
    let p3 = p2 + c3;
    let p4 = p3 + c4;
    let p5 = p4 + c5;
    let p6 = p5 + c6;
    let p7 = p6 + c7;
    let p8 = p7 + c8;
    let p9 = p8 + c9;
    let p10 = p9 + c10;
    assert(cc == p10);
    assert forall|l: Seq<char>|
        l == "Version"@ || l == "Intent"@ || l == "ScanRegions"@ || l == "DocumentFormatExt"@ || l
            == "InputSource"@ || l == "XResolution"@ || l == "YResolution"@ || l == "ColorMode"@
            || l == "CompressionFactor"@ || l == "BlankPageDetection"@ implies #[trigger]
    find_named(cc, l) == {
        if l == "Version"@ {
            find_named(c1, l)
        } else if l == "Intent"@ {
            find_named(c2, l)
        } else if l == "ScanRegions"@ {
            find_named(c3, l)
        } else if l == "DocumentFormatExt"@ {
            find_named(c4, l)
        } else if l == "InputSource"@ {
            find_named(c5, l)
        } else if l == "XResolution"@ {
            find_named(c6, l)
        } else if l == "YResolution"@ {
            find_named(c7, l)
        } else if l == "ColorMode"@ {
            find_named(c8, l)
        } else if l == "CompressionFactor"@ {
            find_named(c9, l)
        } else {
            find_named(c10, l)
        }
    } by {
        lemma_find_opt_piece("pwg:Version"@, Some(s.version), l);
        lemma_find_opt_piece(
            "scan:Intent"@,
            match s.intent {
                None => None,
                Some(i) => Some(scan_intent_token(i)),
            },
            l,
        );
        lemma_find_opt_piece("scan:DocumentFormatExt"@, s.document_format_ext, l);
        lemma_find_opt_piece(
            "pwg:InputSource"@,
            match s.input_source {
                None => None,
                Some(i) => Some(input_source_token(i)),
            },
            l,
        );
        lemma_find_opt_piece("scan:XResolution"@, opt_u32_chars(s.x_resolution), l);
        lemma_find_opt_piece("scan:YResolution"@, opt_u32_chars(s.y_resolution), l);
        lemma_find_opt_piece(
            "scan:ColorMode"@,
            match s.color_mode {
                None => None,
                Some(m) => Some(color_mode_token(m)),
            },
            l,
        );
        lemma_find_opt_piece("scan:CompressionFactor"@, opt_u32_chars(s.compression_factor), l);
        lemma_find_opt_piece(
            "scan:BlankPageDetection"@,
            match s.blank_page_detection {
                None => None,
                Some(b) => Some(bool_chars(b)),
            },
            l,
        );
        assert(find_named(Seq::<SpecElem>::empty(), l) is None);
        assert(find_named(c3, l) == (match s.scan_regions {
            None => None::<SpecElem>,
            Some(_) => if l == "ScanRegions"@ {
                Some(c3[0])
            } else {
                None
            },
        })) by {
            match s.scan_regions {
                None => {
                    assert(c3 =~= Seq::<SpecElem>::empty());
                },
                Some(_) => {
                    assert(c3.first() == c3[0]);
                    assert(c3.drop_first() =~= Seq::<SpecElem>::empty());
                    assert(local_name(c3[0].name) == "ScanRegions"@);
                },
            }
        }
        lemma_find_named_concat(c1, c2, l);
        lemma_find_named_concat(p2, c3, l);
        lemma_find_named_concat(p3, c4, l);
        lemma_find_named_concat(p4, c5, l);
        lemma_find_named_concat(p5, c6, l);
        lemma_find_named_concat(p6, c7, l);
        lemma_find_named_concat(p7, c8, l);
        lemma_find_named_concat(p8, c9, l);
        lemma_find_named_concat(p9, c10, l);
    }
    match s.x_resolution {
        None => {
        },
        Some(v) => {
            crate::util::lemma_dec_chars_val(v as int);
        },
    }
    match s.y_resolution {
        None => {
        },
        Some(v) => {
            crate::util::lemma_dec_chars_val(v as int);
        },
    }
    match s.compression_factor {
        None => {
        },
        Some(v) => {
            crate::util::lemma_dec_chars_val(v as int);
        },
    }
    match s.blank_page_detection {
        None => {
        },
        Some(b) => {
            assert("true"@.len() == 4);
            assert("false"@.len() == 5);
        },
    }
    match s.scan_regions {
        None => {
        },
        Some(rs) => {
            let wrapper = c3[0];
            let region = wrapper.children[0];
            assert(find_named(wrapper.children, "ScanRegion"@) == Some(region)) by {
                assert(wrapper.children.first() == region);
                assert(wrapper.children.drop_first() =~= Seq::<SpecElem>::empty());
                assert(local_name(region.name) == "ScanRegion"@);
            }
            lemma_region_decode(rs.scan_region);
            assert(region == SpecElem {
                name: "pwg:ScanRegion"@,
                text: Seq::<char>::empty(),
                children: region_children(rs.scan_region),
            });
            assert(spec_decode_region(region) == Some(rs.scan_region));
        },
    }
}

/// Encoding a scan request and decoding the document back reproduces every
/// field exactly; a field that was absent comes back absent, since its
/// element was never written.
pub proof fn lemma_settings_round_trip(s: SpecScanSettings)
    requires
        wf_settings(s),
    ensures
        spec_settings_from_str(spec_settings_doc(s)) == Some(s),
{
    lemma_settings_wf(s);
    lemma_settings_lookup(s);
    lemma_parse_print_document(spec_settings_elem(s), spec_settings_doc(s));
    match s.intent {
        None => {
        },
        Some(i) => {
            crate::capabilities::lemma_scan_intent_token_round_trip(i);
        },
    }
    match s.input_source {
        None => {
        },
        Some(i) => {
            lemma_input_source_token_round_trip(i);
        },
    }
    match s.color_mode {
        None => {
        },
        Some(m) => {
            crate::capabilities::lemma_color_mode_token_round_trip(m);
        },
    }
    assert(spec_decode_settings(spec_settings_elem(s)) == Some(s)) by {
        assert(s == SpecScanSettings {
            version: s.version,
            intent: s.intent,
            scan_regions: s.scan_regions,
            document_format_ext: s.document_format_ext,
            input_source: s.input_source,
            x_resolution: s.x_resolution,
            y_resolution: s.y_resolution,
            color_mode: s.color_mode,
            compression_factor: s.compression_factor,
            blank_page_detection: s.blank_page_detection,
        });
    }
}

fn push_leaf(children: &mut Vec<Element>, name: &str, text: String)
    ensures
        crate::xml::elems_view(final(children)@) == crate::xml::elems_view(old(children)@).push(
            leaf(name@, text@),
        ),
{
    let e = Element { name: name.to_owned(), text, children: Vec::new() };
    proof {
        assert(crate::xml::elems_view(e.children@) =~= Seq::<SpecElem>::empty());
        assert(e@ == leaf(name@, e.text@));
    }
    let ghost prev = children@;
    children.push(e);
    proof {
        crate::xml::lemma_elems_view_push(prev, e);
    }
}

impl ScanSettings {
    /// Appends the elements of the resolution, color, compression and
    /// blank-page fields, in schema order.
    fn push_tail_fields(&self, children: &mut Vec<Element>)
        ensures
            crate::xml::elems_view(final(children)@) == crate::xml::elems_view(old(children)@)
                + opt_piece("scan:XResolution"@, opt_u32_chars(self@.x_resolution)) + opt_piece(
                "scan:YResolution"@,
                opt_u32_chars(self@.y_resolution),
            ) + opt_piece(
                "scan:ColorMode"@,
                match self@.color_mode {
                    None => None,
                    Some(m) => Some(color_mode_token(m)),
                },
            ) + opt_piece("scan:CompressionFactor"@, opt_u32_chars(self@.compression_factor))
                + opt_piece(
                "scan:BlankPageDetection"@,
                match self@.blank_page_detection {
                    None => None,
                    Some(b) => Some(bool_chars(b)),
                },
            ),
    {
        let ghost acc = crate::xml::elems_view(children@);
        match self.x_resolution {
            None => {
                proof {
                    assert(acc + opt_piece("scan:XResolution"@, opt_u32_chars(self@.x_resolution))
                        =~= acc);
                }
            },
            Some(v) => {
                push_leaf(children, "scan:XResolution", u32_to_string(v));
                proof {
                    let piece = opt_piece("scan:XResolution"@, opt_u32_chars(self@.x_resolution));
                    assert(acc + piece =~= acc.push(
                        leaf("scan:XResolution"@, dec_chars(v as int)),
                    ));
                    acc = acc + piece;
                }
            },
        }
        match self.y_resolution {
            None => {
                proof {
                    assert(acc + opt_piece("scan:YResolution"@, opt_u32_chars(self@.y_resolution))
                        =~= acc);
                }
            },
            Some(v) => {
                push_leaf(children, "scan:YResolution", u32_to_string(v));
                proof {
                    let piece = opt_piece("scan:YResolution"@, opt_u32_chars(self@.y_resolution));
                    assert(acc + piece =~= acc.push(
                        leaf("scan:YResolution"@, dec_chars(v as int)),
                    ));
                    acc = acc + piece;
                }
            },
        }
        match &self.color_mode {
            None => {
                proof {
                    assert(acc + opt_piece(
                        "scan:ColorMode"@,
                        match self@.color_mode {
                            None => None,
                            Some(m) => Some(color_mode_token(m)),
                        },
                    ) =~= acc);
                }
            },
            Some(m) => {
                let tok: String = m.to_token().to_owned();
                push_leaf(children, "scan:ColorMode", tok);
                proof {
                    let piece = opt_piece(
                        "scan:ColorMode"@,
                        match self@.color_mode {
                            None => None,
                            Some(mv) => Some(color_mode_token(mv)),
                        },
                    );
                    assert(acc + piece =~= acc.push(
                        leaf("scan:ColorMode"@, color_mode_token(m@)),
                    ));
                    acc = acc + piece;
                }
            },
        }
        match self.compression_factor {
            None => {
                proof {
                    assert(acc + opt_piece(
                        "scan:CompressionFactor"@,
                        opt_u32_chars(self@.compression_factor),
                    ) =~= acc);
                }
            },
            Some(v) => {
                push_leaf(children, "scan:CompressionFactor", u32_to_string(v));
                proof {
                    let piece = opt_piece(
                        "scan:CompressionFactor"@,
                        opt_u32_chars(self@.compression_factor),
                    );
                    assert(acc + piece =~= acc.push(
                        leaf("scan:CompressionFactor"@, dec_chars(v as int)),
                    ));
                    acc = acc + piece;
                }
            },
        }
        match self.blank_page_detection {
            None => {
                proof {
                    assert(acc + opt_piece(
                        "scan:BlankPageDetection"@,
                        match self@.blank_page_detection {
                            None => None,
                            Some(b) => Some(bool_chars(b)),
                        },
                    ) =~= acc);
                }
            },
            Some(b) => {
                let tok: String = if b {
                    ("true").to_owned()
                } else {
                    ("false").to_owned()
                };
                push_leaf(children, "scan:BlankPageDetection", tok);
                proof {
                    let piece = opt_piece(
                        "scan:BlankPageDetection"@,
                        match self@.blank_page_detection {
                            None => None,
                            Some(bv) => Some(bool_chars(bv)),
                        },
                    );
                    assert(acc + piece =~= acc.push(
                        leaf("scan:BlankPageDetection"@, bool_chars(b)),
                    ));
                    acc = acc + piece;
                }
            },
        }
        proof {
            assert(crate::xml::elems_view(children@) == acc);
        }
    }

    /// Builds the element tree this request is written as, exactly as
    /// [`spec_settings_elem`] describes.
    #[verifier::rlimit(100)]
    pub fn to_element(&self) -> (r: Element)
        ensures
            r@ == spec_settings_elem(self@),
    {
        let mut children: Vec<Element> = Vec::new();
        let ghost acc = Seq::<SpecElem>::empty();
        proof {
            assert(crate::xml::elems_view(children@) =~= acc);
        }
        push_leaf(&mut children, "pwg:Version", self.version.clone());
        proof {
            acc = acc.push(leaf("pwg:Version"@, self@.version));
            assert(crate::xml::elems_view(children@) == acc);
            assert(acc =~= opt_piece("pwg:Version"@, Some(self@.version)));
        }
        match &self.intent {
            None => {
                proof {
                    assert(acc + opt_piece(
                        "scan:Intent"@,
                        match self@.intent {
                            None => None,
                            Some(i) => Some(scan_intent_token(i)),
                        },
                    ) =~= acc);
                }
            },
            Some(i) => {
                let tok: String = i.to_token().to_owned();
                push_leaf(&mut children, "scan:Intent", tok);
                proof {
                    let piece = opt_piece(
                        "scan:Intent"@,
                        match self@.intent {
                            None => None,
                            Some(iv) => Some(scan_intent_token(iv)),
                        },
                    );
                    assert(acc + piece =~= acc.push(leaf("scan:Intent"@, scan_intent_token(i@))));
                    acc = acc + piece;
                }
            },
        }
        match &self.scan_regions {
            None => {
                proof {
                    assert(acc + regions_piece(self@.scan_regions) =~= acc);
                }
            },
            Some(rs) => {
                let mut inner: Vec<Element> = Vec::new();
                push_leaf(&mut inner, "pwg:Height", u32_to_string(rs.scan_region.height));
                push_leaf(
                    &mut inner,
                    "pwg:ContentRegionUnits",
                    ("escl:ThreeHundredthsOfInches").to_owned(),
                );
                push_leaf(&mut inner, "pwg:Width", u32_to_string(rs.scan_region.width));
                push_leaf(&mut inner, "pwg:XOffset", u32_to_string(rs.scan_region.x_offset));
                push_leaf(&mut inner, "pwg:YOffset", u32_to_string(rs.scan_region.y_offset));
                let ghost inner_v = inner@;
                proof {
                    assert(crate::xml::elems_view(inner_v) =~= region_children(
                        rs.scan_region@,
                    ));
                }
                let region = Element {
                    name: ("pwg:ScanRegion").to_owned(),
                    text: String::new(),
                    children: inner,
                };
                let ghost region_v = region@;
                proof {
                    assert(region.children@ == inner_v);
                    assert(region_v == regions_piece(self@.scan_regions)[0].children[0]);
                }
                let mut outer: Vec<Element> = Vec::new();
                outer.push(region);
                let ghost outer_v = outer@;
                proof {
                    assert(outer_v.len() == 1);
                    assert(outer_v.drop_last() =~= Seq::<Element>::empty());
                    assert(crate::xml::elems_view(outer_v.drop_last()) =~= Seq::<
                        SpecElem,
                    >::empty());
                    assert(crate::xml::elem_view(outer_v.last()) == region_v);
                    assert(crate::xml::elems_view(outer_v) =~= seq![region_v]);
                }
                let wrapper = Element {
                    name: ("pwg:ScanRegions").to_owned(),
                    text: String::new(),
                    children: outer,
                };
                let ghost prev = children@;
                children.push(wrapper);
                proof {
                    crate::xml::lemma_elems_view_push(prev, wrapper);
                    let piece = regions_piece(self@.scan_regions);
                    assert(wrapper@ == piece[0]);
                    assert(acc + piece =~= acc.push(wrapper@));
                    acc = acc + piece;
                }
            },
        }
        match &self.document_format_ext {
            None => {
                proof {
                    assert(acc + opt_piece("scan:DocumentFormatExt"@, self@.document_format_ext)
                        =~= acc);
                }
            },
            Some(t) => {
                push_leaf(&mut children, "scan:DocumentFormatExt", t.clone());
                proof {
                    let piece = opt_piece("scan:DocumentFormatExt"@, self@.document_format_ext);
                    assert(acc + piece =~= acc.push(leaf("scan:DocumentFormatExt"@, t@)));
                    acc = acc + piece;
                }
            },
        }
        match &self.input_source {
            None => {
                proof {
                    assert(acc + opt_piece(
                        "pwg:InputSource"@,
                        match self@.input_source {
                            None => None,
                            Some(i) => Some(input_source_token(i)),
                        },
                    ) =~= acc);
                }
            },
            Some(i) => {
                let tok: String = i.to_token().to_owned();
                push_leaf(&mut children, "pwg:InputSource", tok);
                proof {
                    let piece = opt_piece(
                        "pwg:InputSource"@,
                        match self@.input_source {
                            None => None,
                            Some(iv) => Some(input_source_token(iv)),
                        },
                    );
                    assert(acc + piece =~= acc.push(
                        leaf("pwg:InputSource"@, input_source_token(i@)),
                    ));
                    acc = acc + piece;
                }
            },
        }
        self.push_tail_fields(&mut children);
        proof {
            acc = crate::xml::elems_view(children@);
        }
        let root = Element {
            name: ("scan:ScanSettings").to_owned(),
            text: String::new(),
            children,
        };
        proof {
            assert(acc == spec_settings_children(self@));
            assert(root@ == spec_settings_elem(self@));
        }
        root
    }

    /// Writes this request as the exact document [`spec_settings_doc`]
    /// describes: the XML declaration, then the root element with an element
    /// per present field and nothing for an absent one.
    pub fn to_xml(&self) -> (out: String)
        ensures
            out@ == spec_settings_doc(self@),
    {
        let e = self.to_element();
        crate::xml::print_document(&e)
    }
}

} // verus!
