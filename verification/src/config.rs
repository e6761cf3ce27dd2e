//! Configuration of the analysis stages, and the pipeline error type.
//!
//! Real-valued parameters are exact rationals (`UFrac`). The caller
//! resolves all values before invoking the pipeline; no defaults are
//! applied inside the algorithms themselves.

use vstd::prelude::*;
use crate::frac::UFrac;

verus! {

/// What can go wrong around the pipeline. The exclusion computation
/// itself raises only `ToSmallExclusionDiameter`; the scale-recognition
/// collaborator surfaces the two calibration errors, which callers must
/// treat as blocking since the pipeline cannot run without a scale.
#[derive(Debug, Clone, PartialEq)]
pub enum Error {
    FailedToDetectText(String),
    ToSmallExclusionDiameter,
    ExtremeLineIsNonHorizontal,
    LessThenTwoApplicableLinesFound,
}

impl Error {
    /// A fixed description of the error, one text per variant. The text a
    /// `FailedToDetectText` carries travels separately, through
    /// [`Error::detected_text`].
    pub fn message(&self) -> (r: &'static str)
        ensures
            r@.len() > 0,
            r@ == (match self {
                Error::FailedToDetectText(_) => "Couldn't detect the scale using OCR"@,
                Error::ToSmallExclusionDiameter => "The bacteria exclusion diameter is smaller than 1 pixel which effectively makes it non-existent"@,
                Error::ExtremeLineIsNonHorizontal => "The two lines creating the scale are not on the same y level"@,
                Error::LessThenTwoApplicableLinesFound => "Less then two lines that meet the requirements were found when trying to detect scale"@,
            }),
    {
        let r: &'static str = match self {
            Error::FailedToDetectText(_) => "Couldn't detect the scale using OCR",
            Error::ToSmallExclusionDiameter => "The bacteria exclusion diameter is smaller than 1 pixel which effectively makes it non-existent",
            Error::ExtremeLineIsNonHorizontal => "The two lines creating the scale are not on the same y level",
            Error::LessThenTwoApplicableLinesFound => "Less then two lines that meet the requirements were found when trying to detect scale",
        };
        proof {
            reveal_strlit("Couldn't detect the scale using OCR");
            reveal_strlit("The bacteria exclusion diameter is smaller than 1 pixel which effectively makes it non-existent");
            reveal_strlit("The two lines creating the scale are not on the same y level");
            reveal_strlit("Less then two lines that meet the requirements were found when trying to detect scale");
        }
        r
    }

    /// The text the scale recognizer read, when this error carries one: a
    /// `FailedToDetectText` reports a fixed message and hands the detected
    /// text out here, so that a caller can embed it in its own report.
    pub fn detected_text(&self) -> (r: Option<&String>)
        ensures
            (match self {
                Error::FailedToDetectText(d) => r == Some(d),
                _ => r is None,
            }),
    {
        match self {
            Error::FailedToDetectText(d) => Some(d),
            _ => None,
        }
    }
}

/// Pre-processing options applied before analysis.
#[derive(Debug, Clone, Copy, PartialEq, Eq, Structural)]
pub struct PreProcessing {
    pub equalize_histogram: bool,
}

/// How the physical scale of the image is established.
#[derive(Debug, Clone, Copy, PartialEq, Eq, Structural)]
pub struct TextRecognition {
    pub override_scale: bool,
    pub scale_bar_height: u32,
    pub override_scale_micrometers: UFrac,
    pub override_scale_pixels: u32,
}

/// Parameters of the bacteria-exclusion pipeline.
#[derive(Debug, Clone, Copy, PartialEq, Eq, Structural)]
pub struct BacteriaExclusion {
    pub enabled: bool,
    pub contrast_threshold: UFrac,
    pub minimum_edge_area: usize,
    pub exclusion_radius: UFrac,
    pub radius_adjusted: bool,
}

impl BacteriaExclusion {
    pub open spec fn wf(self) -> bool {
        self.contrast_threshold.wf() && self.exclusion_radius.wf()
    }
}

/// Parameters of the flake-orientation pipeline.
#[derive(Debug, Clone, Copy, PartialEq, Eq, Structural)]
pub struct GrapheneAngles {
    pub enabled: bool,
    pub blur: UFrac,
    pub threshold: u8,
    pub min_graphene_size: UFrac,
    pub min_graphene_ratio: UFrac,
}

impl GrapheneAngles {
    pub open spec fn wf(self) -> bool {
        self.blur.wf() && self.min_graphene_size.wf() && self.min_graphene_ratio.wf()
    }
}

/// The full configuration, with the version string of the program that
/// produced it.
#[derive(Debug, Clone)]
pub struct Configuration {
    pub program_version: String,
    pub pre_processing: PreProcessing,
    pub text_recognition: TextRecognition,
    pub bacteria_exclusion: BacteriaExclusion,
    pub graphene_angles: GrapheneAngles,
}

impl Configuration {
    pub open spec fn wf(self) -> bool {
        &&& self.text_recognition.override_scale_micrometers.wf()
        &&& self.bacteria_exclusion.wf()
        &&& self.graphene_angles.wf()
    }
}

impl Default for Configuration {
    /// The default analysis parameters: exclusion enabled with a contrast
    /// threshold of 45, a minimum edge area of 5 and an exclusion radius
    /// of 0.9 physical units; flake analysis disabled with a blur of 1, a
    /// binary threshold of 150, a minimum size of 0.5 and a minimum
    /// elongation ratio of 3.
    fn default() -> (r: Configuration)
        ensures
            r.wf(),
            r.program_version@.len() == 0,
            !r.pre_processing.equalize_histogram,
            r.text_recognition == (TextRecognition {
                override_scale: false,
                scale_bar_height: 0,
                override_scale_micrometers: UFrac { num: 0, den: 1 },
                override_scale_pixels: 0,
            }),
            r.bacteria_exclusion == (BacteriaExclusion {
                enabled: true,
                contrast_threshold: UFrac { num: 45, den: 1 },
                minimum_edge_area: 5,
                exclusion_radius: UFrac { num: 9, den: 10 },
                radius_adjusted: false,
            }),
            r.graphene_angles == (GrapheneAngles {
                enabled: false,
                blur: UFrac { num: 1, den: 1 },
                threshold: 150,
                min_graphene_size: UFrac { num: 1, den: 2 },
                min_graphene_ratio: UFrac { num: 3, den: 1 },
            }),
    {
        Configuration {
            program_version: String::new(),
            pre_processing: PreProcessing { equalize_histogram: false },
            text_recognition: TextRecognition {
                override_scale: false,
                scale_bar_height: 0,
                override_scale_micrometers: UFrac { num: 0, den: 1 },
                override_scale_pixels: 0,
            },
            bacteria_exclusion: BacteriaExclusion {
                enabled: true,
                contrast_threshold: UFrac { num: 45, den: 1 },
                minimum_edge_area: 5,
                exclusion_radius: UFrac { num: 9, den: 10 },
                radius_adjusted: false,
            },
            graphene_angles: GrapheneAngles {
                enabled: false,
                blur: UFrac { num: 1, den: 1 },
                threshold: 150,
                min_graphene_size: UFrac { num: 1, den: 2 },
                min_graphene_ratio: UFrac { num: 3, den: 1 },
            },
        }
    }
}

} // verus!
