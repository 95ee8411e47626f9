//! Turning a provider's analysis of a camera image into a stored event.
use vstd::prelude::*;

use crate::config::opt_str_view;
use crate::plate::{plate_outcome, result_view, try_validate_plate, PlateView, ValidatedPlate};
use crate::store::ProcessedEvent;

verus! {

/// What an event records of a plate reading.
#[derive(Debug, Clone, PartialEq)]
pub struct PlateFields {
    pub is_valid: Option<bool>,
    pub detected_plate: Option<String>,
    pub class_letter: Option<String>,
    pub district: Option<String>,
    pub metro: Option<bool>,
    pub plate_number: Option<String>,
}

/// The plate as an event shows it: top line, newline, bottom line.
pub open spec fn detected_plate_text(p: PlateView) -> Seq<char> {
    p.top_line + seq!['\n'] + p.bottom_line
}

/// `f` records the reading `r`: all of the plate when it was read, only the
/// failure otherwise.
pub open spec fn fields_record(
    is_valid: Option<bool>,
    detected_plate: Option<String>,
    class_letter: Option<String>,
    district: Option<String>,
    metro: Option<bool>,
    plate_number: Option<String>,
    r: Result<PlateView, Seq<char>>,
) -> bool {
    match r {
        Ok(p) => {
            &&& is_valid == Some(true)
            &&& opt_str_view(detected_plate) == Some(detected_plate_text(p))
            &&& opt_str_view(class_letter) == Some(seq![p.class_letter])
            &&& opt_str_view(district) == Some(p.district)
            &&& metro == Some(p.metro)
            &&& opt_str_view(plate_number) == Some(p.plate_number)
        },
        Err(_) => {
            &&& is_valid == Some(false)
            &&& detected_plate is None
            &&& class_letter is None
            &&& district is None
            &&& metro is None
            &&& plate_number is None
        },
    }
}

/// What an event records of a plate reading.
pub fn plate_fields(reading: Result<ValidatedPlate, String>) -> (f: PlateFields)
    ensures
        fields_record(
            f.is_valid,
            f.detected_plate,
            f.class_letter,
            f.district,
            f.metro,
            f.plate_number,
            result_view(reading),
        ),
{
    match reading {
        Ok(plate) => {
            let mut detected = plate.top_line.clone();
            detected.push('\n');
            detected.append(plate.bottom_line.as_str());
            assert(detected@ =~= detected_plate_text(plate@));
            let mut class_text = String::new();
            class_text.push(plate.class_letter);
            assert(class_text@ =~= seq![plate.class_letter]);
            PlateFields {
                is_valid: Some(true),
                detected_plate: Some(detected),
                class_letter: Some(class_text),
                district: Some(plate.district),
                metro: Some(plate.metro),
                plate_number: Some(plate.plate_number),
            }
        },
        Err(_) => PlateFields {
            is_valid: Some(false),
            detected_plate: None,
            class_letter: None,
            district: None,
            metro: None,
            plate_number: None,
        },
    }
}

/// The event stored for an image of camera `camera_id`, saved as `image_path`,
/// for which the provider answered `ocr_result`. `None` where reading the plate
/// from the answer would cut a character in two, and no event is stored.
pub fn event_from_analysis(
    id: u128,
    camera_id: String,
    image_path: String,
    ocr_result: String,
    created_at: Option<i128>,
) -> (r: Option<ProcessedEvent>)
    ensures
        match plate_outcome(ocr_result@) {
            None => r is None,
            Some(reading) => r matches Some(e) && {
                &&& e.id == id
                &&& e.camera_id == Some(camera_id)
                &&& e.image_path == image_path
                &&& e.raw_ai_text == Some(ocr_result)
                &&& e.created_at == created_at
                &&& fields_record(
                    e.is_plate_valid,
                    e.detected_plate_text,
                    e.vehicle_class,
                    e.district,
                    e.metro_prefix,
                    e.plate_number,
                    reading,
                )
            },
        },
{
    match try_validate_plate(ocr_result.as_str()) {
        None => None,
        Some(reading) => {
            let f = plate_fields(reading);
            Some(
                ProcessedEvent {
                    id,
                    camera_id: Some(camera_id),
                    image_path,
                    raw_ai_text: Some(ocr_result),
                    is_plate_valid: f.is_valid,
                    detected_plate_text: f.detected_plate,
                    vehicle_class: f.class_letter,
                    district: f.district,
                    metro_prefix: f.metro,
                    plate_number: f.plate_number,
                    created_at,
                },
            )
        },
    }
}

} // verus!
