//! AI provider selection, the mock provider, and the analysis prompt.
use vstd::prelude::*;

use crate::config::Config;
use crate::error::AppError;
use crate::payload::{base64_standard_encoded, encode_base64, jpeg_data_uri_prefix};
use crate::store::AiConfig;
use crate::text::{ascii_lower, is_ascii_text, lowercase_of, str_eq, to_lowercase};

verus! {

// ---------------------------------------------------------------------------
// Providers
// ---------------------------------------------------------------------------

/// The kinds of AI provider the service can talk to.
#[derive(Debug, Clone, Copy, PartialEq, Eq)]
pub enum ProviderKind {
    Gemini,
    Minimax,
    Mock,
    Other,
}

/// The kind a lowercase provider name denotes.
pub open spec fn kind_named(lower: Seq<char>) -> ProviderKind {
    if lower == "gemini"@ {
        ProviderKind::Gemini
    } else if lower == "minimax"@ {
        ProviderKind::Minimax
    } else if lower == "mock"@ {
        ProviderKind::Mock
    } else {
        ProviderKind::Other
    }
}

/// The kind a lowercase provider name denotes.
pub fn kind_of_lowercase(lower: &str) -> (r: ProviderKind)
    ensures
        r == kind_named(lower@),
{
    if str_eq(lower, "gemini") {
        ProviderKind::Gemini
    } else if str_eq(lower, "minimax") {
        ProviderKind::Minimax
    } else if str_eq(lower, "mock") {
        ProviderKind::Mock
    } else {
        ProviderKind::Other
    }
}

/// The kind a provider name denotes, whatever its case.
pub fn provider_kind(name: &str) -> (r: ProviderKind)
    ensures
        r == kind_named(lowercase_of(name@)),
{
    let lower = to_lowercase(name);
    kind_of_lowercase(lower.as_str())
}

/// The provider client to build, with what it is built from.
#[derive(Debug, Clone, PartialEq)]
pub enum ProviderChoice {
    Gemini { api_key: String },
    Minimax { api_key: String, model_name: String },
    Mock,
}

/// The model asked of Minimax when none is named.
pub open spec fn default_minimax_model() -> Seq<char> {
    "MiniMax-M3"@
}

/// `e` is a configuration error with message `msg`.
pub open spec fn is_config_error(e: AppError, msg: Seq<char>) -> bool {
    e matches AppError::Config(m) && m@ == msg
}

/// The message for a provider name that names no provider.
pub open spec fn unsupported_provider_message(lower: Seq<char>) -> Seq<char> {
    "Unsupported AI provider: '"@ + lower + "'. Valid options are 'gemini', 'minimax', 'mock'."@
}

/// The provider the configuration selects, once its name is lowercased:
/// Gemini and Minimax need their API key, Minimax takes the model named by
/// `MINIMAX_MODEL` or the default one.
pub open spec fn provider_selected(
    r: Result<ProviderChoice, AppError>,
    lower: Seq<char>,
    config: Config,
    minimax_model: Option<String>,
) -> bool {
    match kind_named(lower) {
        ProviderKind::Gemini => match config.gemini_api_key {
            Some(k) => r matches Ok(ProviderChoice::Gemini { api_key }) && api_key@ == k@,
            None => r matches Err(e) && is_config_error(e, "GEMINI_API_KEY environment variable is not set"@),
        },
        ProviderKind::Minimax => match config.minimax_api_key {
            Some(k) => r matches Ok(ProviderChoice::Minimax { api_key, model_name }) && api_key@ == k@
                && model_name@ == crate::config::or_default(minimax_model, default_minimax_model()),
            None => r matches Err(e) && is_config_error(e, "MINIMAX_API_KEY environment variable is not set"@),
        },
        ProviderKind::Mock => r matches Ok(ProviderChoice::Mock),
        ProviderKind::Other => r matches Err(e) && is_config_error(e, unsupported_provider_message(lower)),
    }
}

/// The provider that the lowercased provider name `lower` selects.
pub fn select_provider_named(lower: &str, config: &Config, minimax_model: Option<String>) -> (r: Result<
    ProviderChoice,
    AppError,
>)
    ensures
        provider_selected(r, lower@, *config, minimax_model),
{
    match kind_of_lowercase(lower) {
        ProviderKind::Gemini => match &config.gemini_api_key {
            Some(k) => Ok(ProviderChoice::Gemini { api_key: k.clone() }),
            None => Err(AppError::Config(String::from_str("GEMINI_API_KEY environment variable is not set"))),
        },
        ProviderKind::Minimax => match &config.minimax_api_key {
            Some(k) => {
                let model_name = match minimax_model {
                    Some(m) => m,
                    None => String::from_str("MiniMax-M3"),
                };
                Ok(ProviderChoice::Minimax { api_key: k.clone(), model_name })
            },
            None => Err(AppError::Config(String::from_str("MINIMAX_API_KEY environment variable is not set"))),
        },
        ProviderKind::Mock => Ok(ProviderChoice::Mock),
        ProviderKind::Other => {
            let mut msg = String::from_str("Unsupported AI provider: '");
            msg.append(lower);
            msg.append("'. Valid options are 'gemini', 'minimax', 'mock'.");
            Err(AppError::Config(msg))
        },
    }
}

/// The provider the configuration selects; `minimax_model` is the value of
/// `MINIMAX_MODEL`, if set.
pub fn select_provider(config: &Config, minimax_model: Option<String>) -> (r: Result<ProviderChoice, AppError>)
    ensures
        provider_selected(r, lowercase_of(config.ai_provider@), *config, minimax_model),
{
    let lower = to_lowercase(config.ai_provider.as_str());
    select_provider_named(lower.as_str(), config, minimax_model)
}

/// The provider an active stored configuration selects, or `None` to keep the
/// service's own provider; a missing key counts as empty.
pub open spec fn provider_for(active: Option<AiConfig>, choice: Option<ProviderChoice>) -> bool {
    match active {
        None => choice is None,
        Some(c) => match kind_named(lowercase_of(c.provider_type@)) {
            ProviderKind::Gemini => choice matches Some(ProviderChoice::Gemini { api_key })
                && api_key@ == crate::config::or_default(c.api_key, Seq::empty()),
            ProviderKind::Minimax => choice matches Some(ProviderChoice::Minimax { api_key, model_name })
                && api_key@ == crate::config::or_default(c.api_key, Seq::empty())
                && model_name@ == crate::config::or_default(c.model_name, default_minimax_model()),
            ProviderKind::Mock => choice matches Some(ProviderChoice::Mock),
            ProviderKind::Other => choice is None,
        },
    }
}

/// The client chosen for an active stored Minimax configuration is Minimax
/// with that configuration's key (empty when it has none) and with the model
/// it names; the default "MiniMax-M3" only when it names no model.
pub proof fn law_stored_minimax_model_is_used(c: AiConfig, choice: Option<ProviderChoice>)
    requires
        provider_for(Some(c), choice),
        lowercase_of(c.provider_type@) == "minimax"@,
    ensures
        choice matches Some(ProviderChoice::Minimax { api_key, model_name }) && {
            &&& c.model_name matches Some(m) ==> model_name@ == m@
            &&& c.model_name is None ==> model_name@ == "MiniMax-M3"@
            &&& c.api_key matches Some(k) ==> api_key@ == k@
            &&& c.api_key is None ==> api_key@.len() == 0
        },
{
    reveal_strlit("minimax");
    reveal_strlit("gemini");
    assert("minimax"@ != "gemini"@) by {
        assert("minimax"@[0] != "gemini"@[0]);
    }
}

fn key_or_empty(k: Option<String>) -> (r: String)
    ensures
        r@ == crate::config::or_default(k, Seq::empty()),
{
    match k {
        Some(s) => s,
        None => String::new(),
    }
}

/// The provider client for the active stored configuration, if it selects one.
pub fn provider_for_config(active: Option<AiConfig>) -> (r: Option<ProviderChoice>)
    ensures
        provider_for(active, r),
{
    match active {
        None => None,
        Some(c) => match provider_kind(c.provider_type.as_str()) {
            ProviderKind::Gemini => Some(ProviderChoice::Gemini { api_key: key_or_empty(c.api_key) }),
            ProviderKind::Minimax => {
                let model_name = match c.model_name {
                    Some(m) => m,
                    None => String::from_str("MiniMax-M3"),
                };
                Some(ProviderChoice::Minimax { api_key: key_or_empty(c.api_key), model_name })
            },
            ProviderKind::Mock => Some(ProviderChoice::Mock),
            ProviderKind::Other => None,
        },
    }
}

/// The error for a provider API that answered with a failure status: the
/// provider's name, the status and the body it sent.
pub fn upstream_status_error(provider: &str, status: &str, body: &str) -> (e: AppError)
    ensures
        e matches AppError::AiProvider(m) && m@ == provider@ + " API returned error status "@ + status@
            + ": "@ + body@,
{
    let mut m = String::from_str(provider);
    m.append(" API returned error status ");
    m.append(status);
    m.append(": ");
    m.append(body);
    AppError::AiProvider(m)
}

/// The text a provider API answered, or the error for an answer that holds none.
pub fn reply_text(provider: &str, text: Option<String>) -> (r: Result<String, AppError>)
    ensures
        match text {
            Some(t) => r == Ok::<String, AppError>(t),
            None => r matches Err(AppError::AiProvider(m)) && m@ == "Failed to parse response text from "@
                + provider@ + " API response"@,
        },
{
    match text {
        Some(t) => Ok(t),
        None => {
            let mut m = String::from_str("Failed to parse response text from ");
            m.append(provider);
            m.append(" API response");
            Err(AppError::AiProvider(m))
        },
    }
}

/// The image data a Gemini request carries: the image in standard base64.
pub fn gemini_image_data(image_bytes: &[u8]) -> (r: String)
    ensures
        r@ == base64_standard_encoded(image_bytes@),
{
    encode_base64(image_bytes)
}

/// The image URL a Minimax request carries: the JPEG data URI of the image.
pub fn minimax_image_url(image_bytes: &[u8]) -> (r: String)
    ensures
        r@ == jpeg_data_uri_prefix() + base64_standard_encoded(image_bytes@),
{
    let mut r = String::from_str("data:image/jpeg;base64,");
    let data = encode_base64(image_bytes);
    r.append(data.as_str());
    r
}

/// A provider that answers every image with a fixed Bangla plate.
#[derive(Debug, Clone, Copy, PartialEq, Eq)]
pub struct MockProvider;

/// The mock provider's answer.
pub open spec fn mock_reading() -> Seq<char> {
    "ঢাকা মেট্রো ঘ\n১২-৩৪৫৬"@
}

impl MockProvider {
    pub fn new() -> (r: Self)
        ensures
            r == MockProvider,
    {
        MockProvider
    }

    /// Returns a mock Bangladeshi license plate recognition response.
    pub fn analyze_image(&self, image_bytes: &[u8]) -> (r: Result<String, AppError>)
        ensures
            r matches Ok(s) && s@ == mock_reading(),
    {
        Ok(String::from_str("ঢাকা মেট্রো ঘ\n১২-৩৪৫৬"))
    }
}

// ---------------------------------------------------------------------------
// The CCTV analysis prompt
// ---------------------------------------------------------------------------

/// The analysis modules a prompt can ask for.
#[derive(Debug, Clone, Copy, PartialEq, Eq, Structural)]
pub enum PromptModule {
    Anpr,
    FaceDetection,
    PerimeterProtection,
    FaceRecognition,
    VideoMetadata,
    SmdPlus,
    StereoAnalysis,
    CrowdDistribution,
    PeopleCounting,
    VehicleDensity,
    HeatMap,
    PpeDetection,
    SmartObjectDetection,
    SmartSoundDetection,
}

/// The name a module is enabled by, and its key in the response schema.
pub open spec fn module_key(m: PromptModule) -> Seq<char> {
    match m {
        PromptModule::Anpr => "anpr"@,
        PromptModule::FaceDetection => "face_detection"@,
        PromptModule::PerimeterProtection => "perimeter_protection"@,
        PromptModule::FaceRecognition => "face_recognition"@,
        PromptModule::VideoMetadata => "video_metadata"@,
        PromptModule::SmdPlus => "smd_plus"@,
        PromptModule::StereoAnalysis => "stereo_analysis"@,
        PromptModule::CrowdDistribution => "crowd_distribution"@,
        PromptModule::PeopleCounting => "people_counting"@,
        PromptModule::VehicleDensity => "vehicle_density"@,
        PromptModule::HeatMap => "heat_map"@,
        PromptModule::PpeDetection => "ppe_detection"@,
        PromptModule::SmartObjectDetection => "smart_object_detection"@,
        PromptModule::SmartSoundDetection => "smart_sound_detection"@,
    }
}

/// The module's instruction line.
pub open spec fn module_instruction(m: PromptModule) -> Seq<char> {
    match m {
        PromptModule::Anpr => "- **anpr**: Extract the Bangladeshi vehicle license plate from this image. Bangladeshi license plates have two lines: Top Line (e.g. 'ঢাকা মেট্রো ঘ' or 'সিলেট হ') containing the district, optionally the word 'মেট্রো', and a single vehicle class letter (ক to হ); Bottom Line (e.g. '১২-৩৪৫৬') containing exactly 6 digits formatted as XX-XXXX.\n"@,
        PromptModule::FaceDetection => "- **face_detection**: Detect all human faces in the image. For each face, specify the approximate bounding box [ymin, xmin, ymax, xmax] in percentages (0-100), and estimate attributes: age (e.g., '20-30', '40-50'), gender ('male', 'female', 'unknown'), and emotion ('happy', 'sad', 'angry', 'neutral').\n"@,
        PromptModule::PerimeterProtection => "- **perimeter_protection**: Identify if any humans, vehicles, or animals have crossed into restricted perimeter zones in this image. Assume a perimeter breach if objects are in forbidden spaces.\n"@,
        PromptModule::FaceRecognition => "- **face_recognition**: Identify and match any detected faces against known personnel in the facility (VIPs, staff, blacklisted individuals). If a match is found, list the name and role; otherwise, label as 'unknown'.\n"@,
        PromptModule::VideoMetadata => "- **video_metadata**: Extract structured attributes for humans, motor vehicles, and non-motor vehicles present in the image. For humans: clothing color, backpack presence. For motor vehicles: vehicle type (car, truck, bus, bike), color, brand/model. For non-motor vehicles: type (bicycle, rickshaw).\n"@,
        PromptModule::SmdPlus => "- **smd_plus**: Perform Smart Motion Detection (SMD Plus) to filter motion events. Identify if the primary motion trigger is a 'human', 'vehicle', or 'noise' (wind, rain, tree leaves, animal).\n"@,
        PromptModule::StereoAnalysis => "- **stereo_analysis**: Analyze depth and height in the scene to detect anomalous behavior (e.g. fall detection, climbing over barriers, height violations).\n"@,
        PromptModule::CrowdDistribution => "- **crowd_distribution**: Analyze crowd density and distribution in the area.\n"@,
        PromptModule::PeopleCounting => "- **people_counting**: Count the total number of people in the image, estimating those moving 'in' (entering/crossing forward) vs 'out' (exiting/crossing backward).\n"@,
        PromptModule::VehicleDensity => "- **vehicle_density**: Evaluate the traffic congestion and vehicle count in the camera view.\n"@,
        PromptModule::HeatMap => "- **heat_map**: Generate regional coordinate hotspots representing motion density. Specify high-activity coordinates in percentage grid cells (e.g., [x, y] cells from 0 to 9).\n"@,
        PromptModule::PpeDetection => "- **ppe_detection**: Scan all people in the image for Personal Protective Equipment (PPE) compliance. Check for: 'hardhat' (safety helmet), 'safety_vest' (high-visibility vest), 'mask' (face mask), and 'boots'.\n"@,
        PromptModule::SmartObjectDetection => "- **smart_object_detection**: Detect smart objects alerts: 'loitering' (person staying in a place too long), 'abandoned_object' (e.g., luggage left behind), or 'missing_object' (removed asset).\n"@,
        PromptModule::SmartSoundDetection => "- **smart_sound_detection**: Based on visual indicators in the image (e.g., a person screaming, glass broken on the floor, crowd running in panic), evaluate potential sound alerts.\n"@,
    }
}

/// The name a module is enabled by, and its key in the response schema.
pub fn module_key_text(m: PromptModule) -> (r: &'static str)
    ensures
        r@ == module_key(m),
{
    match m {
        PromptModule::Anpr => "anpr",
        PromptModule::FaceDetection => "face_detection",
        PromptModule::PerimeterProtection => "perimeter_protection",
        PromptModule::FaceRecognition => "face_recognition",
        PromptModule::VideoMetadata => "video_metadata",
        PromptModule::SmdPlus => "smd_plus",
        PromptModule::StereoAnalysis => "stereo_analysis",
        PromptModule::CrowdDistribution => "crowd_distribution",
        PromptModule::PeopleCounting => "people_counting",
        PromptModule::VehicleDensity => "vehicle_density",
        PromptModule::HeatMap => "heat_map",
        PromptModule::PpeDetection => "ppe_detection",
        PromptModule::SmartObjectDetection => "smart_object_detection",
        PromptModule::SmartSoundDetection => "smart_sound_detection",
    }
}

/// The module's instruction line.
pub fn module_instruction_text(m: PromptModule) -> (r: &'static str)
    ensures
        r@ == module_instruction(m),
{
    match m {
        PromptModule::Anpr => "- **anpr**: Extract the Bangladeshi vehicle license plate from this image. Bangladeshi license plates have two lines: Top Line (e.g. 'ঢাকা মেট্রো ঘ' or 'সিলেট হ') containing the district, optionally the word 'মেট্রো', and a single vehicle class letter (ক to হ); Bottom Line (e.g. '১২-৩৪৫৬') containing exactly 6 digits formatted as XX-XXXX.\n",
        PromptModule::FaceDetection => "- **face_detection**: Detect all human faces in the image. For each face, specify the approximate bounding box [ymin, xmin, ymax, xmax] in percentages (0-100), and estimate attributes: age (e.g., '20-30', '40-50'), gender ('male', 'female', 'unknown'), and emotion ('happy', 'sad', 'angry', 'neutral').\n",
        PromptModule::PerimeterProtection => "- **perimeter_protection**: Identify if any humans, vehicles, or animals have crossed into restricted perimeter zones in this image. Assume a perimeter breach if objects are in forbidden spaces.\n",
        PromptModule::FaceRecognition => "- **face_recognition**: Identify and match any detected faces against known personnel in the facility (VIPs, staff, blacklisted individuals). If a match is found, list the name and role; otherwise, label as 'unknown'.\n",
        PromptModule::VideoMetadata => "- **video_metadata**: Extract structured attributes for humans, motor vehicles, and non-motor vehicles present in the image. For humans: clothing color, backpack presence. For motor vehicles: vehicle type (car, truck, bus, bike), color, brand/model. For non-motor vehicles: type (bicycle, rickshaw).\n",
        PromptModule::SmdPlus => "- **smd_plus**: Perform Smart Motion Detection (SMD Plus) to filter motion events. Identify if the primary motion trigger is a 'human', 'vehicle', or 'noise' (wind, rain, tree leaves, animal).\n",
        PromptModule::StereoAnalysis => "- **stereo_analysis**: Analyze depth and height in the scene to detect anomalous behavior (e.g. fall detection, climbing over barriers, height violations).\n",
        PromptModule::CrowdDistribution => "- **crowd_distribution**: Analyze crowd density and distribution in the area.\n",
        PromptModule::PeopleCounting => "- **people_counting**: Count the total number of people in the image, estimating those moving 'in' (entering/crossing forward) vs 'out' (exiting/crossing backward).\n",
        PromptModule::VehicleDensity => "- **vehicle_density**: Evaluate the traffic congestion and vehicle count in the camera view.\n",
        PromptModule::HeatMap => "- **heat_map**: Generate regional coordinate hotspots representing motion density. Specify high-activity coordinates in percentage grid cells (e.g., [x, y] cells from 0 to 9).\n",
        PromptModule::PpeDetection => "- **ppe_detection**: Scan all people in the image for Personal Protective Equipment (PPE) compliance. Check for: 'hardhat' (safety helmet), 'safety_vest' (high-visibility vest), 'mask' (face mask), and 'boots'.\n",
        PromptModule::SmartObjectDetection => "- **smart_object_detection**: Detect smart objects alerts: 'loitering' (person staying in a place too long), 'abandoned_object' (e.g., luggage left behind), or 'missing_object' (removed asset).\n",
        PromptModule::SmartSoundDetection => "- **smart_sound_detection**: Based on visual indicators in the image (e.g., a person screaming, glass broken on the floor, crowd running in panic), evaluate potential sound alerts.\n",
    }
}

/// The module a lowercase name enables.
pub open spec fn module_named(lower: Seq<char>) -> Option<PromptModule> {
    if lower == "anpr"@ {
        Some(PromptModule::Anpr)
    } else if lower == "face_detection"@ {
        Some(PromptModule::FaceDetection)
    } else if lower == "perimeter_protection"@ {
        Some(PromptModule::PerimeterProtection)
    } else if lower == "face_recognition"@ {
        Some(PromptModule::FaceRecognition)
    } else if lower == "video_metadata"@ {
        Some(PromptModule::VideoMetadata)
    } else if lower == "smd_plus"@ {
        Some(PromptModule::SmdPlus)
    } else if lower == "stereo_analysis"@ {
        Some(PromptModule::StereoAnalysis)
    } else if lower == "crowd_distribution"@ {
        Some(PromptModule::CrowdDistribution)
    } else if lower == "people_counting"@ {
        Some(PromptModule::PeopleCounting)
    } else if lower == "vehicle_density"@ {
        Some(PromptModule::VehicleDensity)
    } else if lower == "heat_map"@ {
        Some(PromptModule::HeatMap)
    } else if lower == "ppe_detection"@ {
        Some(PromptModule::PpeDetection)
    } else if lower == "smart_object_detection"@ {
        Some(PromptModule::SmartObjectDetection)
    } else if lower == "smart_sound_detection"@ {
        Some(PromptModule::SmartSoundDetection)
    } else {
        None
    }
}

/// The module a lowercase name enables.
pub fn module_of_lowercase(lower: &str) -> (r: Option<PromptModule>)
    ensures
        r == module_named(lower@),
{
    if str_eq(lower, "anpr") {
        Some(PromptModule::Anpr)
    } else if str_eq(lower, "face_detection") {
        Some(PromptModule::FaceDetection)
    } else if str_eq(lower, "perimeter_protection") {
        Some(PromptModule::PerimeterProtection)
    } else if str_eq(lower, "face_recognition") {
        Some(PromptModule::FaceRecognition)
    } else if str_eq(lower, "video_metadata") {
        Some(PromptModule::VideoMetadata)
    } else if str_eq(lower, "smd_plus") {
        Some(PromptModule::SmdPlus)
    } else if str_eq(lower, "stereo_analysis") {
        Some(PromptModule::StereoAnalysis)
    } else if str_eq(lower, "crowd_distribution") {
        Some(PromptModule::CrowdDistribution)
    } else if str_eq(lower, "people_counting") {
        Some(PromptModule::PeopleCounting)
    } else if str_eq(lower, "vehicle_density") {
        Some(PromptModule::VehicleDensity)
    } else if str_eq(lower, "heat_map") {
        Some(PromptModule::HeatMap)
    } else if str_eq(lower, "ppe_detection") {
        Some(PromptModule::PpeDetection)
    } else if str_eq(lower, "smart_object_detection") {
        Some(PromptModule::SmartObjectDetection)
    } else if str_eq(lower, "smart_sound_detection") {
        Some(PromptModule::SmartSoundDetection)
    } else {
        None
    }
}

/// The module names a prompt is built from: the enabled ones, or "anpr" when
/// none is enabled.
pub open spec fn prompt_module_names(enabled: Seq<String>) -> Seq<Seq<char>> {
    if enabled.len() == 0 {
        seq!["anpr"@]
    } else {
        enabled.map_values(|s: String| s@)
    }
}

/// The modules that names enable, in order; names of no module are skipped.
pub open spec fn modules_named(names: Seq<Seq<char>>) -> Seq<PromptModule>
    decreases names.len(),
{
    if names.len() == 0 {
        Seq::empty()
    } else {
        let r = modules_named(names.drop_last());
        match module_named(lowercase_of(names.last())) {
            Some(m) => r.push(m),
            None => r,
        }
    }
}

/// The modules a prompt covers.
pub fn prompt_modules(enabled: &Vec<String>) -> (r: Vec<PromptModule>)
    ensures
        r@ == modules_named(prompt_module_names(enabled@)),
{
    let default_names: Vec<String> = vec![String::from_str("anpr")];
    let names: &Vec<String> = if enabled.len() == 0 {
        &default_names
    } else {
        enabled
    };
    let ghost nv = names@.map_values(|s: String| s@);
    assert(nv =~= prompt_module_names(enabled@));
    let mut r: Vec<PromptModule> = Vec::new();
    let mut i: usize = 0;
    while i < names.len()
        invariant
            i <= names@.len(),
            nv == names@.map_values(|s: String| s@),
            nv.len() == names@.len(),
            r@ == modules_named(nv.take(i as int)),
        decreases names@.len() - i,
    {
        let lower = to_lowercase(names[i].as_str());
        assert(nv[i as int] == names@[i as int]@);
        assert(nv.take(i + 1).drop_last() =~= nv.take(i as int));
        match module_of_lowercase(lower.as_str()) {
            Some(m) => r.push(m),
            None => {},
        }
        i = i + 1;
    }
    assert(nv.take(nv.len() as int) =~= nv);
    r
}

/// The instruction lines of `modules`, in order.
pub open spec fn instructions_of(modules: Seq<PromptModule>) -> Seq<char>
    decreases modules.len(),
{
    if modules.len() == 0 {
        Seq::empty()
    } else {
        instructions_of(modules.drop_last()) + module_instruction(modules.last())
    }
}

/// The instruction lines of `modules`.
pub fn prompt_instructions(modules: &Vec<PromptModule>) -> (r: String)
    ensures
        r@ == instructions_of(modules@),
{
    let mut r = String::new();
    let mut i: usize = 0;
    while i < modules.len()
        invariant
            i <= modules@.len(),
            r@ == instructions_of(modules@.take(i as int)),
        decreases modules@.len() - i,
    {
        r.append(module_instruction_text(modules[i]));
        assert(modules@.take(i + 1).drop_last() =~= modules@.take(i as int));
        i = i + 1;
    }
    assert(modules@.take(modules@.len() as int) =~= modules@);
    r
}

/// The instruction lines the enabled `names` give, in order: for each name
/// the line of the module its lowercase form names, nothing for other names.
pub open spec fn lines_for_names(names: Seq<Seq<char>>) -> Seq<char>
    decreases names.len(),
{
    if names.len() == 0 {
        Seq::empty()
    } else {
        lines_for_names(names.drop_last()) + match module_named(lowercase_of(names.last())) {
            Some(m) => module_instruction(m),
            None => Seq::empty(),
        }
    }
}

/// The heading an instruction line opens with: `- **key**:`.
pub open spec fn module_heading(m: PromptModule) -> Seq<char> {
    "- **"@ + module_key(m) + "**:"@
}

proof fn lemma_modules_named_contains(names: Seq<Seq<char>>, m: PromptModule)
    ensures
        modules_named(names).contains(m) <==> exists|i: int|
            0 <= i < names.len() && module_named(lowercase_of(#[trigger] names[i])) == Some(m),
    decreases names.len(),
{
    if names.len() > 0 {
        let init = names.drop_last();
        let n = names.len() - 1;
        lemma_modules_named_contains(init, m);
        let r = modules_named(init);
        if exists|i: int| 0 <= i < names.len() && module_named(lowercase_of(#[trigger] names[i])) == Some(m) {
            let i = choose|i: int| 0 <= i < names.len() && module_named(lowercase_of(#[trigger] names[i])) == Some(m);
            if i < n {
                assert(init[i] == names[i]);
                let j = choose|j: int| 0 <= j < r.len() && r[j] == m;
                match module_named(lowercase_of(names.last())) {
                    Some(x) => assert(r.push(x)[j] == m),
                    None => {},
                }
            } else {
                assert(modules_named(names) == r.push(m));
                assert(r.push(m)[r.len() as int] == m);
            }
        }
        if modules_named(names).contains(m) {
            match module_named(lowercase_of(names.last())) {
                Some(x) => {
                    let j = choose|j: int| 0 <= j < r.len() + 1 && r.push(x)[j] == m;
                    if j < r.len() {
                        assert(r[j] == m);
                        let i = choose|i: int| 0 <= i < init.len() && module_named(lowercase_of(#[trigger] init[i])) == Some(m);
                        assert(names[i] == init[i]);
                    } else {
                        assert(names[n] == names.last());
                    }
                },
                None => {
                    let i = choose|i: int| 0 <= i < init.len() && module_named(lowercase_of(#[trigger] init[i])) == Some(m);
                    assert(names[i] == init[i]);
                },
            }
        }
    }
}

proof fn lemma_instructions_push(ms: Seq<PromptModule>, m: PromptModule)
    ensures
        instructions_of(ms.push(m)) == instructions_of(ms) + module_instruction(m),
{
    assert(ms.push(m).drop_last() =~= ms);
}

proof fn lemma_lines_for_names(names: Seq<Seq<char>>)
    ensures
        instructions_of(modules_named(names)) == lines_for_names(names),
    decreases names.len(),
{
    if names.len() > 0 {
        lemma_lines_for_names(names.drop_last());
        match module_named(lowercase_of(names.last())) {
            Some(m) => lemma_instructions_push(modules_named(names.drop_last()), m),
            None => assert(instructions_of(modules_named(names.drop_last())) + Seq::<char>::empty()
                =~= instructions_of(modules_named(names.drop_last()))),
        }
    }
}

proof fn lemma_module_heading(m: PromptModule)
    ensures
        module_heading(m).is_prefix_of(module_instruction(m)),
{
    reveal_strlit("- **");
    reveal_strlit("**:");
    match m {
        PromptModule::Anpr => {
            reveal_strlit("anpr");
            reveal_strlit("- **anpr**: Extract the Bangladeshi vehicle license plate from this image. Bangladeshi license plates have two lines: Top Line (e.g. 'ঢাকা মেট্রো ঘ' or 'সিলেট হ') containing the district, optionally the word 'মেট্রো', and a single vehicle class letter (ক to হ); Bottom Line (e.g. '১২-৩৪৫৬') containing exactly 6 digits formatted as XX-XXXX.\n");
        },
        PromptModule::FaceDetection => {
            reveal_strlit("face_detection");
            reveal_strlit("- **face_detection**: Detect all human faces in the image. For each face, specify the approximate bounding box [ymin, xmin, ymax, xmax] in percentages (0-100), and estimate attributes: age (e.g., '20-30', '40-50'), gender ('male', 'female', 'unknown'), and emotion ('happy', 'sad', 'angry', 'neutral').\n");
        },
        PromptModule::PerimeterProtection => {
            reveal_strlit("perimeter_protection");
            reveal_strlit("- **perimeter_protection**: Identify if any humans, vehicles, or animals have crossed into restricted perimeter zones in this image. Assume a perimeter breach if objects are in forbidden spaces.\n");
        },
        PromptModule::FaceRecognition => {
            reveal_strlit("face_recognition");
            reveal_strlit("- **face_recognition**: Identify and match any detected faces against known personnel in the facility (VIPs, staff, blacklisted individuals). If a match is found, list the name and role; otherwise, label as 'unknown'.\n");
        },
        PromptModule::VideoMetadata => {
            reveal_strlit("video_metadata");
            reveal_strlit("- **video_metadata**: Extract structured attributes for humans, motor vehicles, and non-motor vehicles present in the image. For humans: clothing color, backpack presence. For motor vehicles: vehicle type (car, truck, bus, bike), color, brand/model. For non-motor vehicles: type (bicycle, rickshaw).\n");
        },
        PromptModule::SmdPlus => {
            reveal_strlit("smd_plus");
            reveal_strlit("- **smd_plus**: Perform Smart Motion Detection (SMD Plus) to filter motion events. Identify if the primary motion trigger is a 'human', 'vehicle', or 'noise' (wind, rain, tree leaves, animal).\n");
        },
        PromptModule::StereoAnalysis => {
            reveal_strlit("stereo_analysis");
            reveal_strlit("- **stereo_analysis**: Analyze depth and height in the scene to detect anomalous behavior (e.g. fall detection, climbing over barriers, height violations).\n");
        },
        PromptModule::CrowdDistribution => {
            reveal_strlit("crowd_distribution");
            reveal_strlit("- **crowd_distribution**: Analyze crowd density and distribution in the area.\n");
        },
        PromptModule::PeopleCounting => {
            reveal_strlit("people_counting");
            reveal_strlit("- **people_counting**: Count the total number of people in the image, estimating those moving 'in' (entering/crossing forward) vs 'out' (exiting/crossing backward).\n");
        },
        PromptModule::VehicleDensity => {
            reveal_strlit("vehicle_density");
            reveal_strlit("- **vehicle_density**: Evaluate the traffic congestion and vehicle count in the camera view.\n");
        },
        PromptModule::HeatMap => {
            reveal_strlit("heat_map");
            reveal_strlit("- **heat_map**: Generate regional coordinate hotspots representing motion density. Specify high-activity coordinates in percentage grid cells (e.g., [x, y] cells from 0 to 9).\n");
        },
        PromptModule::PpeDetection => {
            reveal_strlit("ppe_detection");
            reveal_strlit("- **ppe_detection**: Scan all people in the image for Personal Protective Equipment (PPE) compliance. Check for: 'hardhat' (safety helmet), 'safety_vest' (high-visibility vest), 'mask' (face mask), and 'boots'.\n");
        },
        PromptModule::SmartObjectDetection => {
            reveal_strlit("smart_object_detection");
            reveal_strlit("- **smart_object_detection**: Detect smart objects alerts: 'loitering' (person staying in a place too long), 'abandoned_object' (e.g., luggage left behind), or 'missing_object' (removed asset).\n");
        },
        PromptModule::SmartSoundDetection => {
            reveal_strlit("smart_sound_detection");
            reveal_strlit("- **smart_sound_detection**: Based on visual indicators in the image (e.g., a person screaming, glass broken on the floor, crowd running in panic), evaluate potential sound alerts.\n");
        },
    }
}

/// The prompt follows the enabled module names: it covers exactly the
/// modules whose names (lowercased) are enabled, and its instructions are
/// their lines in the order the names are given, each opening with the
/// module's `- **key**:` heading; with no module enabled it covers ANPR alone.
pub proof fn law_prompt_follows_enabled_names(enabled: Seq<String>, m: PromptModule)
    ensures
        modules_named(prompt_module_names(enabled)).contains(m) <==> exists|i: int|
            0 <= i < prompt_module_names(enabled).len()
                && module_named(lowercase_of(#[trigger] prompt_module_names(enabled)[i])) == Some(m),
        instructions_of(modules_named(prompt_module_names(enabled))) == lines_for_names(
            prompt_module_names(enabled),
        ),
        module_heading(m).is_prefix_of(module_instruction(m)),
        enabled.len() == 0 ==> modules_named(prompt_module_names(enabled)) == seq![PromptModule::Anpr],
        enabled.len() == 0 ==> instructions_of(modules_named(prompt_module_names(enabled)))
            == module_instruction(PromptModule::Anpr),
{
    let names = prompt_module_names(enabled);
    lemma_modules_named_contains(names, m);
    lemma_lines_for_names(names);
    lemma_module_heading(m);
    if enabled.len() == 0 {
        reveal_strlit("anpr");
        assert(is_ascii_text("anpr"@));
        assert(ascii_lower("anpr"@) =~= "anpr"@);
        assert(names.drop_last() =~= Seq::<Seq<char>>::empty());
        assert(names.last() == "anpr"@);
        assert(lowercase_of(names.last()) == "anpr"@);
        assert(module_named("anpr"@) == Some(PromptModule::Anpr));
        assert(modules_named(names.drop_last()) =~= Seq::<PromptModule>::empty());
        assert(modules_named(names) =~= seq![PromptModule::Anpr]);
        lemma_instructions_push(Seq::empty(), PromptModule::Anpr);
        assert(seq![PromptModule::Anpr] =~= Seq::<PromptModule>::empty().push(PromptModule::Anpr));
        assert(Seq::<char>::empty() + module_instruction(PromptModule::Anpr) =~= module_instruction(PromptModule::Anpr));
    }
}

/// The modules of `modules` in the order of their first occurrence, each once:
/// the keys of the response schema.
pub open spec fn distinct_modules(modules: Seq<PromptModule>) -> Seq<PromptModule>
    decreases modules.len(),
{
    if modules.len() == 0 {
        Seq::empty()
    } else {
        let r = distinct_modules(modules.drop_last());
        if r.contains(modules.last()) {
            r
        } else {
            r.push(modules.last())
        }
    }
}

proof fn lemma_distinct_modules(modules: Seq<PromptModule>)
    ensures
        forall|m: PromptModule| #[trigger] distinct_modules(modules).contains(m) <==> modules.contains(m),
        forall|i: int, j: int|
            0 <= i < j < distinct_modules(modules).len() ==> distinct_modules(modules)[i]
                != distinct_modules(modules)[j],
    decreases modules.len(),
{
    if modules.len() > 0 {
        let init = modules.drop_last();
        lemma_distinct_modules(init);
        let r = distinct_modules(init);
        assert forall|m: PromptModule| #[trigger] distinct_modules(modules).contains(m) <==> modules.contains(m) by {
            if modules.contains(m) {
                let k = choose|k: int| 0 <= k < modules.len() && modules[k] == m;
                if k < init.len() {
                    assert(init[k] == m);
                    assert(init.contains(m));
                }
                if !r.contains(m) {
                    assert(r.push(modules.last())[r.len() as int] == m);
                } else {
                    let j = choose|j: int| 0 <= j < r.len() && r[j] == m;
                    if !r.contains(modules.last()) {
                        assert(r.push(modules.last())[j] == m);
                    }
                }
            }
            if distinct_modules(modules).contains(m) {
                if r.contains(m) {
                    let j = choose|j: int| 0 <= j < init.len() && init[j] == m;
                    assert(modules[j] == m);
                } else {
                    assert(modules[modules.len() - 1] == m);
                }
            }
        }
    }
}

/// The response schema has one key per covered module, each once: the keys
/// are exactly the modules of the prompt and none is repeated.
pub proof fn law_schema_keys_follow_modules(modules: Seq<PromptModule>, m: PromptModule)
    ensures
        distinct_modules(modules).contains(m) <==> modules.contains(m),
        forall|i: int, j: int|
            0 <= i < j < distinct_modules(modules).len() ==> distinct_modules(modules)[i]
                != distinct_modules(modules)[j],
{
    lemma_distinct_modules(modules);
}

/// The modules the response schema has keys for: those of `modules`, each once,
/// in the order they first occur.
pub fn schema_modules(modules: &Vec<PromptModule>) -> (r: Vec<PromptModule>)
    ensures
        r@ == distinct_modules(modules@),
{
    let mut r: Vec<PromptModule> = Vec::new();
    let mut i: usize = 0;
    while i < modules.len()
        invariant
            i <= modules@.len(),
            r@ == distinct_modules(modules@.take(i as int)),
        decreases modules@.len() - i,
    {
        let m = modules[i];
        let mut seen = false;
        let mut j: usize = 0;
        while j < r.len()
            invariant
                j <= r@.len(),
                seen <==> r@.take(j as int).contains(m),
            decreases r@.len() - j,
        {
            proof {
                let before = r@.take(j as int);
                let after = r@.take(j + 1);
                if r@[j as int] == m {
                    assert(after[j as int] == m);
                }
                if before.contains(m) {
                    let k = choose|k: int| 0 <= k < before.len() && before[k] == m;
                    assert(after[k] == m);
                }
                if after.contains(m) {
                    let k = choose|k: int| 0 <= k < after.len() && after[k] == m;
                    if k < j {
                        assert(before[k] == m);
                    }
                }
            }
            if r[j] == m {
                seen = true;
            }
            j = j + 1;
        }
        assert(r@.take(r@.len() as int) =~= r@);
        assert(modules@.take(i + 1).drop_last() =~= modules@.take(i as int));
        assert(modules@.take(i + 1).last() == m);
        if !seen {
            r.push(m);
        }
        i = i + 1;
    }
    assert(modules@.take(modules@.len() as int) =~= modules@);
    r
}

/// The text of the prompt before its instructions.
pub open spec fn prompt_opening() -> Seq<char> {
    "You are an advanced CCTV AI vision processor. Analyze the provided image according to these active modules:\n\n"@
}

/// The text of the prompt between its instructions and its schema.
pub open spec fn prompt_schema_intro() -> Seq<char> {
    "\nYou MUST respond ONLY with a valid JSON object matching the following structure. Do not output any markdown code fences (like ```json), no comments, no extra text, and no whitespace outside standard JSON serialization. The JSON must match this schema:\n\n"@
}

/// The analysis prompt for `instructions` and the rendered response `schema`.
pub fn compose_cctv_prompt(instructions: &str, schema: &str) -> (r: String)
    ensures
        r@ == prompt_opening() + instructions@ + prompt_schema_intro() + schema@,
{
    let mut r = String::from_str("You are an advanced CCTV AI vision processor. Analyze the provided image according to these active modules:\n\n");
    r.append(instructions);
    r.append("\nYou MUST respond ONLY with a valid JSON object matching the following structure. Do not output any markdown code fences (like ```json), no comments, no extra text, and no whitespace outside standard JSON serialization. The JSON must match this schema:\n\n");
    r.append(schema);
    r
}

} // verus!
